//! The pattern text format: metadata lines, a header line, and the board.
//!
//! ```text
//! #N name
//! #O author
//! #C comment
//! x = <columns>, y = <rows>, rule = B3/S23
//! <one row of cells>$<next row>$...
//! ```
//!
//! A live cell is written `b`, a dead one `o`; every row ends in `$` and the
//! board in a line feed. The functions here turn a pattern into bytes and
//! bytes into a pattern; reading and writing files is the caller's part.

use crate::grid::{has_shape, Grid};
use crate::universe::{Metadata, Ruleset};
use vstd::prelude::*;
use vstd::utf8::encode_utf8;

verus! {

/// The byte that ends a line.
pub const LINE_FEED: u8 = 10;

/// The byte that every metadata line begins with.
pub const HASH: u8 = 35;

/// The byte that ends a row of cells.
pub const ROW_END: u8 = 36;

/// The byte of a live cell.
pub const LIVE: u8 = 98;

/// The byte of a dead cell.
pub const DEAD: u8 = 111;

/// The mark of a name line, `#N `.
pub open spec fn name_mark() -> Seq<u8> {
    seq![35u8, 78u8, 32u8]
}

/// The mark of an author line, `#O `.
pub open spec fn author_mark() -> Seq<u8> {
    seq![35u8, 79u8, 32u8]
}

/// The mark of a comment line, `#C `.
pub open spec fn comment_mark() -> Seq<u8> {
    seq![35u8, 67u8, 32u8]
}

/// The start of the header line, `x = `.
pub open spec fn header_x() -> Seq<u8> {
    seq![120u8, 32u8, 61u8, 32u8]
}

/// The middle of the header line, `, y = `.
pub open spec fn header_y() -> Seq<u8> {
    seq![44u8, 32u8, 121u8, 32u8, 61u8, 32u8]
}

/// The end of the header line before the rule, `, rule = `.
pub open spec fn header_rule() -> Seq<u8> {
    seq![44u8, 32u8, 114u8, 117u8, 108u8, 101u8, 32u8, 61u8, 32u8]
}

/// The notation of a ruleset as bytes: `B3/S23` for Conway's rule.
pub open spec fn rule_text(ruleset: Ruleset) -> Seq<u8> {
    seq![66u8, 51u8, 47u8, 83u8, 50u8, 51u8]
}

/// The decimal digits of `n`, most significant first, without leading zeros.
pub open spec fn digits(n: nat) -> Seq<u8>
    decreases n,
{
    if n < 10 {
        seq![(48 + n) as u8]
    } else {
        digits(n / 10).push((48 + n % 10) as u8)
    }
}

/// One line: the mark, the text, a line feed.
pub open spec fn marked_line(mark: Seq<u8>, text: Seq<u8>) -> Seq<u8> {
    mark + text + seq![LINE_FEED]
}

/// The line of an optional piece of metadata: nothing where there is none.
pub open spec fn optional_line(mark: Seq<u8>, text: Option<Seq<u8>>) -> Seq<u8> {
    match text {
        Some(t) => marked_line(mark, t),
        None => Seq::empty(),
    }
}

/// The comment lines, in order.
pub open spec fn comment_lines(comments: Seq<Seq<u8>>) -> Seq<u8>
    decreases comments.len(),
{
    if comments.len() == 0 {
        Seq::empty()
    } else {
        comment_lines(comments.drop_last()) + marked_line(comment_mark(), comments.last())
    }
}

/// The header line for a board of `cols` columns and `rows` rows.
pub open spec fn header_line(cols: nat, rows: nat, ruleset: Ruleset) -> Seq<u8> {
    header_x() + digits(cols) + header_y() + digits(rows) + header_rule() + rule_text(ruleset)
        + seq![LINE_FEED]
}

/// The byte of a cell.
pub open spec fn cell_byte(live: bool) -> u8 {
    if live {
        LIVE
    } else {
        DEAD
    }
}

/// One row of the board: a byte for each cell, then the row end.
pub open spec fn row_text(row: Seq<bool>) -> Seq<u8> {
    Seq::new(row.len(), |c: int| cell_byte(row[c])).push(ROW_END)
}

/// The rows of the board, one after the other.
pub open spec fn rows_text(cells: Seq<Seq<bool>>) -> Seq<u8>
    decreases cells.len(),
{
    if cells.len() == 0 {
        Seq::empty()
    } else {
        rows_text(cells.drop_last()) + row_text(cells.last())
    }
}

/// What a pattern holds, as plain values: texts as bytes, the board as rows
/// of cells.
pub struct PatternView {
    pub name: Option<Seq<u8>>,
    pub author: Option<Seq<u8>>,
    pub comments: Seq<Seq<u8>>,
    pub ruleset: Ruleset,
    pub cols: nat,
    pub rows: nat,
    pub cells: Seq<Seq<bool>>,
}

/// The text of a pattern: metadata lines, header line, board, line feed.
pub open spec fn pattern_text(p: PatternView) -> Seq<u8> {
    optional_line(name_mark(), p.name) + optional_line(author_mark(), p.author) + comment_lines(
        p.comments,
    ) + header_line(p.cols, p.rows, p.ruleset) + rows_text(p.cells) + seq![LINE_FEED]
}

/// The bytes of an optional text.
pub open spec fn optional_bytes(text: Option<String>) -> Option<Seq<u8>> {
    match text {
        Some(t) => Some(encode_utf8(t@)),
        None => None,
    }
}

/// The pattern that a board makes together with its metadata and dimensions.
pub open spec fn pattern_of(metadata: Metadata, rows: nat, cols: nat, cells: Seq<Seq<bool>>) -> PatternView {
    PatternView {
        name: optional_bytes(metadata.name),
        author: optional_bytes(metadata.author),
        comments: Seq::new(metadata.comments@.len(), |i: int| encode_utf8(metadata.comments@[i]@)),
        ruleset: metadata.ruleset,
        cols,
        rows,
        cells,
    }
}

/// Why a text is not a pattern.
#[derive(Clone, Copy, Debug, PartialEq, Eq, Structural)]
pub enum RleError {
    /// A line that begins with `#` is not a name, author or comment line, or
    /// has no line feed.
    BadMetadata,
    /// The header line is missing or malformed, or names another rule.
    BadHeader,
    /// A dimension in the header does not fit the machine.
    TooLarge,
    /// The board does not have the rows and columns that the header gives,
    /// holds a byte that is no cell, or is followed by more than a line feed.
    BadBody,
}

/// Name, author and comments as read so far.
pub struct MetaView {
    pub name: Option<Seq<u8>>,
    pub author: Option<Seq<u8>>,
    pub comments: Seq<Seq<u8>>,
}

/// The number of bytes before the first line feed of `s`, or the length of
/// `s` where it has none.
pub open spec fn line_len(s: Seq<u8>) -> nat
    decreases s.len(),
{
    if s.len() == 0 || s[0] == LINE_FEED {
        0
    } else {
        1 + line_len(s.drop_first())
    }
}

/// No byte of `s` is a line feed.
pub open spec fn one_line(s: Seq<u8>) -> bool {
    forall|i: int| 0 <= i < s.len() ==> s[i] != LINE_FEED
}

/// Whether `s` begins with `p`.
pub open spec fn starts_with(s: Seq<u8>, p: Seq<u8>) -> bool {
    p.len() <= s.len() && forall|i: int| 0 <= i < p.len() ==> s[i] == p[i]
}

/// What one metadata line adds to what was read before: the letter after the
/// `#` says where the text goes.
pub open spec fn with_line(meta: MetaView, letter: u8, text: Seq<u8>) -> Option<MetaView> {
    if letter == 78 {
        Some(MetaView { name: Some(text), ..meta })
    } else if letter == 79 {
        Some(MetaView { author: Some(text), ..meta })
    } else if letter == 67 {
        Some(MetaView { comments: meta.comments.push(text), ..meta })
    } else {
        None
    }
}

/// Reads the metadata lines at the start of `s`: every line that begins with
/// `#`, up to the first line that does not. Gives what was read and the rest
/// of the text.
pub open spec fn meta_lines(s: Seq<u8>, meta: MetaView) -> Result<(MetaView, Seq<u8>), RleError>
    decreases s.len(),
{
    if s.len() > 0 && s[0] == HASH {
        let n = line_len(s);
        if n >= s.len() || n < 3 || s[2] != 32 {
            Err(RleError::BadMetadata)
        } else {
            match with_line(meta, s[1], s.subrange(3, n as int)) {
                Some(more) => meta_lines(s.skip(n as int + 1), more),
                None => Err(RleError::BadMetadata),
            }
        }
    } else {
        Ok((meta, s))
    }
}

/// Whether a byte is a decimal digit.
pub open spec fn is_digit(b: u8) -> bool {
    48 <= b <= 57
}

/// Reads the run of digits at the start of `s` as a number that continues
/// `acc`. Gives the number and the rest of the text.
pub open spec fn digit_run(s: Seq<u8>, acc: nat) -> (nat, Seq<u8>)
    decreases s.len(),
{
    if s.len() > 0 && is_digit(s[0]) {
        digit_run(s.drop_first(), acc * 10 + (s[0] - 48) as nat)
    } else {
        (acc, s)
    }
}

/// Reads a number of at least one digit at the start of `s`.
pub open spec fn number(s: Seq<u8>) -> Option<(nat, Seq<u8>)> {
    if s.len() > 0 && is_digit(s[0]) {
        Some(digit_run(s, 0))
    } else {
        None
    }
}

/// The rest of `s` after `p`, where `s` begins with `p`.
pub open spec fn strip(s: Seq<u8>, p: Seq<u8>) -> Option<Seq<u8>> {
    if starts_with(s, p) {
        Some(s.skip(p.len() as int))
    } else {
        None
    }
}

/// The end of the header line after the second number: the rule and a line feed.
pub open spec fn header_tail() -> Seq<u8> {
    header_rule() + rule_text(Ruleset::Life) + seq![LINE_FEED]
}

/// Reads the header line at the start of `s`. Gives columns, rows and the
/// rest of the text.
pub open spec fn header(s: Seq<u8>) -> Result<(nat, nat, Seq<u8>), RleError> {
    match strip(s, header_x()) {
        None => Err(RleError::BadHeader),
        Some(s1) => match number(s1) {
            None => Err(RleError::BadHeader),
            Some((cols, s2)) => match strip(s2, header_y()) {
                None => Err(RleError::BadHeader),
                Some(s3) => match number(s3) {
                    None => Err(RleError::BadHeader),
                    Some((rows, s4)) => match strip(s4, header_tail()) {
                        None => Err(RleError::BadHeader),
                        Some(s5) => if cols > usize::MAX || rows > usize::MAX {
                            Err(RleError::TooLarge)
                        } else {
                            Ok((cols, rows, s5))
                        },
                    },
                },
            },
        },
    }
}

/// Reads one row of `cols` cells and its row end at the start of `s`.
pub open spec fn row(s: Seq<u8>, cols: nat) -> Option<(Seq<bool>, Seq<u8>)> {
    if s.len() > cols && s[cols as int] == ROW_END && (forall|i: int|
        0 <= i < cols ==> s[i] == LIVE || s[i] == DEAD) {
        Some((Seq::new(cols, |i: int| s[i] == LIVE), s.skip(cols as int + 1)))
    } else {
        None
    }
}

/// Reads `rows` rows of `cols` cells at the start of `s`, after the rows in
/// `above`. Gives all rows and the rest of the text.
pub open spec fn body_rows(s: Seq<u8>, rows: nat, cols: nat, above: Seq<Seq<bool>>) -> Option<
    (Seq<Seq<bool>>, Seq<u8>),
>
    decreases rows,
{
    if rows == 0 {
        Some((above, s))
    } else {
        match row(s, cols) {
            None => None,
            Some((cells, rest)) => body_rows(rest, (rows - 1) as nat, cols, above.push(cells)),
        }
    }
}

/// The pattern that a text holds, or why it holds none.
pub open spec fn parsed(text: Seq<u8>) -> Result<PatternView, RleError> {
    match meta_lines(text, MetaView { name: None, author: None, comments: Seq::empty() }) {
        Err(e) => Err(e),
        Ok((meta, s1)) => match header(s1) {
            Err(e) => Err(e),
            Ok((cols, rows, s2)) => match body_rows(s2, rows, cols, Seq::empty()) {
                None => Err(RleError::BadBody),
                Some((cells, s3)) => if s3 == seq![LINE_FEED] {
                    Ok(
                        PatternView {
                            name: meta.name,
                            author: meta.author,
                            comments: meta.comments,
                            ruleset: Ruleset::Life,
                            cols,
                            rows,
                            cells,
                        },
                    )
                } else {
                    Err(RleError::BadBody)
                },
            },
        },
    }
}

/// A pattern that the format can hold: no text of it has a line feed, the
/// board has the dimensions that the pattern names, and they fit the machine.
pub open spec fn well_formed(p: PatternView) -> bool {
    &&& p.name matches Some(t) ==> one_line(t)
    &&& p.author matches Some(t) ==> one_line(t)
    &&& forall|i: int| 0 <= i < p.comments.len() ==> one_line(#[trigger] p.comments[i])
    &&& has_shape(p.cells, p.rows, p.cols)
    &&& p.cols <= usize::MAX
    &&& p.rows <= usize::MAX
}

/// The number that a run of the digits of `n` makes of `acc`: `acc` moved
/// left by as many places as `n` has digits, plus `n`.
spec fn shifted(acc: nat, n: nat) -> nat
    decreases n,
{
    if n < 10 {
        acc * 10 + n
    } else {
        shifted(acc, n / 10) * 10 + n % 10
    }
}

/// Read from nothing, the digits of `n` give `n`.
proof fn shifted_from_zero(n: nat)
    ensures
        shifted(0, n) == n,
    decreases n,
{
    if n >= 10 {
        shifted_from_zero(n / 10);
    }
}

/// The digits of a number are at least one, and the first is a digit.
proof fn digits_begin_with_digit(n: nat)
    ensures
        digits(n).len() > 0,
        is_digit(digits(n)[0]),
    decreases n,
{
    if n >= 10 {
        digits_begin_with_digit(n / 10);
    }
}

/// A run that begins with the digits of `n` reads them all and goes on
/// with what follows.
proof fn digit_run_over_digits(n: nat, rest: Seq<u8>, acc: nat)
    ensures
        digit_run(digits(n) + rest, acc) == digit_run(rest, shifted(acc, n)),
    decreases n,
{
    if n < 10 {
        let s = digits(n) + rest;
        assert(s[0] == (48 + n) as u8);
        assert(s.drop_first() =~= rest);
    } else {
        let last = seq![(48 + n % 10) as u8];
        assert(digits(n) + rest =~= digits(n / 10) + (last + rest));
        digit_run_over_digits(n / 10, last + rest, acc);
        let t = last + rest;
        assert(t[0] == (48 + n % 10) as u8);
        assert(t.drop_first() =~= rest);
    }
}

/// Before anything that is no digit, the digits of `n` read as `n`.
proof fn number_over_digits(n: nat, rest: Seq<u8>)
    requires
        rest.len() == 0 || !is_digit(rest[0]),
    ensures
        number(digits(n) + rest) == Some((n, rest)),
{
    digits_begin_with_digit(n);
    digit_run_over_digits(n, rest, 0);
    shifted_from_zero(n);
    assert((digits(n) + rest)[0] == digits(n)[0]);
}

/// What begins with `p` is left with the rest once `p` is taken off.
proof fn strip_over_prefix(p: Seq<u8>, rest: Seq<u8>)
    ensures
        strip(p + rest, p) == Some(rest),
{
    assert((p + rest).skip(p.len() as int) =~= rest);
}

/// A text without a line feed, followed by one, is a line of its own length.
proof fn line_len_over_line(a: Seq<u8>, rest: Seq<u8>)
    requires
        one_line(a),
    ensures
        line_len(a + seq![LINE_FEED] + rest) == a.len(),
    decreases a.len(),
{
    let s = a + seq![LINE_FEED] + rest;
    if a.len() == 0 {
        assert(s[0] == LINE_FEED);
    } else {
        assert(s[0] == a[0]);
        assert(s.drop_first() =~= a.drop_first() + seq![LINE_FEED] + rest);
        line_len_over_line(a.drop_first(), rest);
    }
}

/// One written metadata line is read as what it was written from.
proof fn meta_lines_over_line(letter: u8, text: Seq<u8>, rest: Seq<u8>, meta: MetaView)
    requires
        one_line(text),
        with_line(meta, letter, text) is Some,
    ensures
        meta_lines(marked_line(seq![HASH, letter, 32u8], text) + rest, meta) == meta_lines(
            rest,
            with_line(meta, letter, text)->0,
        ),
{
    let a = seq![HASH, letter, 32u8] + text;
    let s = marked_line(seq![HASH, letter, 32u8], text) + rest;
    assert(s =~= a + seq![LINE_FEED] + rest);
    assert(one_line(a));
    line_len_over_line(a, rest);
    let n = line_len(s);
    assert(n == 3 + text.len());
    assert(s[0] == HASH && s[1] == letter && s[2] == 32);
    assert(s.subrange(3, n as int) =~= text);
    assert(s.skip(n as int + 1) =~= rest);
}

/// Written comment lines are read back in order, after those read before.
proof fn meta_lines_over_comments(comments: Seq<Seq<u8>>, rest: Seq<u8>, meta: MetaView)
    requires
        forall|i: int| 0 <= i < comments.len() ==> one_line(#[trigger] comments[i]),
    ensures
        meta_lines(comment_lines(comments) + rest, meta) == meta_lines(
            rest,
            MetaView { comments: meta.comments + comments, ..meta },
        ),
    decreases comments.len(),
{
    if comments.len() == 0 {
        assert(comment_lines(comments) + rest =~= rest);
        assert(meta.comments + comments =~= meta.comments);
    } else {
        let before = comments.drop_last();
        let line = marked_line(comment_mark(), comments.last());
        assert(comment_lines(comments) + rest =~= comment_lines(before) + (line + rest));
        meta_lines_over_comments(before, line + rest, meta);
        let so_far = MetaView { comments: meta.comments + before, ..meta };
        assert(comment_mark() =~= seq![HASH, 67u8, 32u8]);
        meta_lines_over_line(67, comments.last(), rest, so_far);
        assert((meta.comments + before).push(comments.last()) =~= meta.comments + comments);
    }
}

/// A written header line is read as the dimensions it was written from.
proof fn header_over_line(cols: nat, rows: nat, rest: Seq<u8>)
    requires
        cols <= usize::MAX,
        rows <= usize::MAX,
    ensures
        header(header_line(cols, rows, Ruleset::Life) + rest) == Ok::<
            (nat, nat, Seq<u8>),
            RleError,
        >((cols, rows, rest)),
{
    let s5 = rest;
    let s4 = header_tail() + s5;
    let s3 = digits(rows) + s4;
    let s2 = header_y() + s3;
    let s1 = digits(cols) + s2;
    let s0 = header_x() + s1;
    assert(header_line(cols, rows, Ruleset::Life) + rest =~= s0);
    strip_over_prefix(header_x(), s1);
    assert(s2[0] == 44);
    number_over_digits(cols, s2);
    strip_over_prefix(header_y(), s3);
    assert(s4[0] == 44);
    number_over_digits(rows, s4);
    strip_over_prefix(header_tail(), s5);
}

/// A written row is read as the cells it was written from.
proof fn row_over_text(cells: Seq<bool>, rest: Seq<u8>)
    ensures
        row(row_text(cells) + rest, cells.len()) == Some((cells, rest)),
{
    let s = row_text(cells) + rest;
    let cols = cells.len();
    assert(s[cols as int] == ROW_END);
    assert forall|i: int| 0 <= i < cols implies s[i] == LIVE || s[i] == DEAD by {
        assert(s[i] == cell_byte(cells[i]));
    }
    assert(Seq::new(cols, |i: int| s[i] == LIVE) =~= cells) by {
        assert forall|i: int| 0 <= i < cols implies (s[i] == LIVE) == cells[i] by {
            assert(s[i] == cell_byte(cells[i]));
        }
    }
    assert(s.skip(cols as int + 1) =~= rest);
}

/// Written rows are read back in order, after those read before.
proof fn body_rows_over_text(
    cells: Seq<Seq<bool>>,
    cols: nat,
    more: nat,
    rest: Seq<u8>,
    above: Seq<Seq<bool>>,
)
    requires
        forall|r: int| 0 <= r < cells.len() ==> (#[trigger] cells[r]).len() == cols,
    ensures
        body_rows(rows_text(cells) + rest, cells.len() + more, cols, above) == body_rows(
            rest,
            more,
            cols,
            above + cells,
        ),
    decreases cells.len(),
{
    if cells.len() == 0 {
        assert(rows_text(cells) + rest =~= rest);
        assert(above + cells =~= above);
    } else {
        let before = cells.drop_last();
        let line = row_text(cells.last()) + rest;
        assert(rows_text(cells) + rest =~= rows_text(before) + line);
        body_rows_over_text(before, cols, more + 1, line, above);
        row_over_text(cells.last(), rest);
        assert((above + before).push(cells.last()) =~= above + cells);
    }
}

/// Rows that were read are as many as asked for, each `cols` cells long.
proof fn body_rows_have_shape(s: Seq<u8>, rows: nat, cols: nat, above: Seq<Seq<bool>>)
    requires
        forall|r: int| 0 <= r < above.len() ==> (#[trigger] above[r]).len() == cols,
    ensures
        body_rows(s, rows, cols, above) matches Some((cells, rest)) ==> has_shape(
            cells,
            above.len() + rows,
            cols,
        ),
    decreases rows,
{
    if rows > 0 {
        match row(s, cols) {
            None => {},
            Some((cells, rest)) => {
                body_rows_have_shape(rest, (rows - 1) as nat, cols, above.push(cells));
            },
        }
    }
}

/// The board of a pattern read from a text has the rows and columns that the
/// header of the text gives, and both fit the machine.
pub proof fn parsed_board_has_header_shape(text: Seq<u8>)
    ensures
        parsed(text) matches Ok(p) ==> has_shape(p.cells, p.rows, p.cols) && p.rows <= usize::MAX
            && p.cols <= usize::MAX,
{
    match meta_lines(text, MetaView { name: None, author: None, comments: Seq::empty() }) {
        Err(e) => {},
        Ok((meta, s1)) => match header(s1) {
            Err(e) => {},
            Ok((cols, rows, s2)) => {
                body_rows_have_shape(s2, rows, cols, Seq::empty());
            },
        },
    }
}

/// Writing a pattern and reading the text back gives the pattern again: the
/// same name, author and comments, the same rule, the same dimensions and
/// the same cells. This holds of every pattern that the format can hold
/// (`well_formed`).
pub proof fn round_trip(p: PatternView)
    requires
        well_formed(p),
    ensures
        parsed(pattern_text(p)) == Ok::<PatternView, RleError>(p),
{
    let blank = MetaView { name: None, author: None, comments: Seq::empty() };
    let body = rows_text(p.cells) + seq![LINE_FEED];
    let from_header = header_line(p.cols, p.rows, p.ruleset) + body;
    let from_comments = comment_lines(p.comments) + from_header;
    let from_author = optional_line(author_mark(), p.author) + from_comments;
    let from_name = optional_line(name_mark(), p.name) + from_author;
    assert(pattern_text(p) =~= from_name);
    let named = MetaView { name: p.name, ..blank };
    assert(meta_lines(from_name, blank) == meta_lines(from_author, named)) by {
        match p.name {
            Some(t) => {
                assert(name_mark() =~= seq![HASH, 78u8, 32u8]);
                meta_lines_over_line(78, t, from_author, blank);
            },
            None => {
                assert(from_name =~= from_author);
            },
        }
    }
    let signed = MetaView { author: p.author, ..named };
    assert(meta_lines(from_author, named) == meta_lines(from_comments, signed)) by {
        match p.author {
            Some(t) => {
                assert(author_mark() =~= seq![HASH, 79u8, 32u8]);
                meta_lines_over_line(79, t, from_comments, named);
            },
            None => {
                assert(from_author =~= from_comments);
            },
        }
    }
    let full = MetaView { comments: p.comments, ..signed };
    assert(meta_lines(from_comments, signed) == meta_lines(from_header, full)) by {
        meta_lines_over_comments(p.comments, from_header, signed);
        assert(signed.comments + p.comments =~= p.comments);
    }
    assert(from_header[0] == 120);
    assert(meta_lines(from_header, full) == Ok::<(MetaView, Seq<u8>), RleError>(
        (full, from_header),
    ));
    header_over_line(p.cols, p.rows, body);
    body_rows_over_text(p.cells, p.cols, 0, seq![LINE_FEED], Seq::empty());
    assert(Seq::<Seq<bool>>::empty() + p.cells =~= p.cells);
}

/// A pattern as read from a text: its metadata as bytes, its dimensions and
/// its board.
#[derive(Clone, Debug)]
pub struct Pattern {
    pub name: Option<Vec<u8>>,
    pub author: Option<Vec<u8>>,
    pub comments: Vec<Vec<u8>>,
    pub ruleset: Ruleset,
    pub cols: usize,
    pub rows: usize,
    pub cells: Grid,
}

/// The bytes of an optional vector.
pub open spec fn optional_view(text: Option<Vec<u8>>) -> Option<Seq<u8>> {
    match text {
        Some(t) => Some(t@),
        None => None,
    }
}

impl View for Pattern {
    type V = PatternView;

    open spec fn view(&self) -> PatternView {
        PatternView {
            name: optional_view(self.name),
            author: optional_view(self.author),
            comments: Seq::new(self.comments@.len(), |i: int| self.comments@[i]@),
            ruleset: self.ruleset,
            cols: self.cols as nat,
            rows: self.rows as nat,
            cells: self.cells@,
        }
    }
}

/// The position of the first line feed at or after `pos`, or the length of
/// the text where there is none.
fn line_end(text: &[u8], pos: usize) -> (end: usize)
    requires
        pos <= text@.len(),
    ensures
        pos <= end <= text@.len(),
        end - pos == line_len(text@.skip(pos as int)),
{
    let len = text.len();
    let mut j: usize = pos;
    while j < len && text[j] != LINE_FEED
        invariant
            pos <= j <= len,
            len == text@.len(),
            line_len(text@.skip(pos as int)) == (j - pos) + line_len(text@.skip(j as int)),
        decreases len - j,
    {
        proof {
            let s = text@.skip(j as int);
            assert(s[0] == text@[j as int]);
            assert(s.drop_first() =~= text@.skip(j + 1));
        }
        j += 1;
    }
    proof {
        let s = text@.skip(j as int);
        if j < len {
            assert(s[0] == text@[j as int]);
        }
    }
    j
}

/// Copies the bytes from `from` up to `to` out of the text.
fn copy_out(text: &[u8], from: usize, to: usize) -> (piece: Vec<u8>)
    requires
        from <= to <= text@.len(),
    ensures
        piece@ == text@.subrange(from as int, to as int),
{
    let mut piece: Vec<u8> = Vec::new();
    let mut i: usize = from;
    while i < to
        invariant
            from <= i <= to,
            to <= text@.len(),
            piece@ == text@.subrange(from as int, i as int),
        decreases to - i,
    {
        piece.push(text[i]);
        i += 1;
        assert(piece@ =~= text@.subrange(from as int, i as int));
    }
    piece
}

/// The metadata that a pattern under construction holds so far.
spec fn meta_of(name: Option<Vec<u8>>, author: Option<Vec<u8>>, comments: Vec<Vec<u8>>) -> MetaView {
    MetaView {
        name: optional_view(name),
        author: optional_view(author),
        comments: Seq::new(comments@.len(), |i: int| comments@[i]@),
    }
}

/// Reads the metadata lines at the start of the text. Gives name, author,
/// comments and the position after the last metadata line.
fn read_meta(text: &[u8]) -> (result: Result<
    (Option<Vec<u8>>, Option<Vec<u8>>, Vec<Vec<u8>>, usize),
    RleError,
>)
    ensures
        match result {
            Ok((name, author, comments, pos)) => pos <= text@.len() && meta_lines(
                text@,
                MetaView { name: None, author: None, comments: Seq::empty() },
            ) == Ok::<(MetaView, Seq<u8>), RleError>(
                (meta_of(name, author, comments), text@.skip(pos as int)),
            ),
            Err(e) => meta_lines(
                text@,
                MetaView { name: None, author: None, comments: Seq::empty() },
            ) == Err::<(MetaView, Seq<u8>), RleError>(e),
        },
{
    let len = text.len();
    let mut name: Option<Vec<u8>> = None;
    let mut author: Option<Vec<u8>> = None;
    let mut comments: Vec<Vec<u8>> = Vec::new();
    let mut pos: usize = 0;
    let ghost blank = MetaView { name: None, author: None, comments: Seq::empty() };
    assert(text@.skip(0) =~= text@);
    assert(meta_of(name, author, comments).comments =~= blank.comments);
    while pos < len && text[pos] == HASH
        invariant
            pos <= len,
            len == text@.len(),
            blank == (MetaView { name: None, author: None, comments: Seq::empty() }),
            meta_lines(text@, blank) == meta_lines(
                text@.skip(pos as int),
                meta_of(name, author, comments),
            ),
        decreases len - pos,
    {
        let ghost s = text@.skip(pos as int);
        let ghost before = meta_of(name, author, comments);
        assert(s[0] == text@[pos as int]);
        let end = line_end(text, pos);
        let n = end - pos;
        if end >= len || n < 3 {
            return Err(RleError::BadMetadata);
        }
        assert(s[1] == text@[pos + 1]);
        assert(s[2] == text@[pos + 2]);
        if text[pos + 2] != 32 {
            return Err(RleError::BadMetadata);
        }
        let letter = text[pos + 1];
        let line = copy_out(text, pos + 3, end);
        assert(line@ =~= s.subrange(3, n as int));
        assert(s.skip(n as int + 1) =~= text@.skip(end + 1));
        if letter == 78 {
            name = Some(line);
        } else if letter == 79 {
            author = Some(line);
        } else if letter == 67 {
            comments.push(line);
            assert(meta_of(name, author, comments).comments =~= before.comments.push(line@));
        } else {
            return Err(RleError::BadMetadata);
        }
        assert(with_line(before, letter, line@) == Some(meta_of(name, author, comments)));
        pos = end + 1;
    }
    proof {
        let s = text@.skip(pos as int);
        if pos < len {
            assert(s[0] == text@[pos as int]);
        }
    }
    Ok((name, author, comments, pos))
}

/// Reads the run of digits at `pos`. Gives the number, or `None` where it
/// does not fit the machine, and the position after the last digit; or
/// nothing at all where no digit stands at `pos`.
fn read_number(text: &[u8], pos: usize) -> (result: Option<(Option<usize>, usize)>)
    requires
        pos <= text@.len(),
    ensures
        match result {
            Some((value, next)) => {
                &&& pos <= next <= text@.len()
                &&& number(text@.skip(pos as int)) matches Some((n, rest))
                &&& rest == text@.skip(next as int)
                &&& match value {
                    Some(v) => v == n,
                    None => n > usize::MAX,
                }
            },
            None => number(text@.skip(pos as int)) is None,
        },
{
    let len = text.len();
    let ghost start = text@.skip(pos as int);
    if pos >= len || text[pos] < 48 || text[pos] > 57 {
        proof {
            if pos < len {
                assert(start[0] == text@[pos as int]);
            }
        }
        return None;
    }
    assert(start[0] == text@[pos as int]);
    let mut value: Option<usize> = Some(0);
    let ghost mut acc: nat = 0;
    let mut j: usize = pos;
    while j < len && 48 <= text[j] && text[j] <= 57
        invariant
            pos <= j <= len,
            len == text@.len(),
            start == text@.skip(pos as int),
            digit_run(start, 0) == digit_run(text@.skip(j as int), acc),
            match value {
                Some(v) => v == acc,
                None => acc > usize::MAX,
            },
        decreases len - j,
    {
        let digit = (text[j] - 48) as usize;
        proof {
            let s = text@.skip(j as int);
            assert(s[0] == text@[j as int]);
            assert(s.drop_first() =~= text@.skip(j + 1));
            acc = acc * 10 + digit as nat;
        }
        value = match value {
            Some(v) => match v.checked_mul(10) {
                Some(tens) => tens.checked_add(digit),
                None => None,
            },
            None => None,
        };
        j += 1;
    }
    proof {
        let s = text@.skip(j as int);
        if j < len {
            assert(s[0] == text@[j as int]);
        }
    }
    Some((value, j))
}

/// Tests whether `piece` stands at `pos`. Gives the position after it.
fn expect(text: &[u8], pos: usize, piece: &[u8]) -> (result: Option<usize>)
    requires
        pos <= text@.len(),
    ensures
        match result {
            Some(next) => {
                &&& next == pos + piece@.len()
                &&& next <= text@.len()
                &&& strip(text@.skip(pos as int), piece@) == Some(text@.skip(next as int))
            },
            None => strip(text@.skip(pos as int), piece@) is None,
        },
{
    let len = text.len();
    let n = piece.len();
    let ghost s = text@.skip(pos as int);
    if n > len - pos {
        return None;
    }
    let mut i: usize = 0;
    while i < n
        invariant
            i <= n,
            n == piece@.len(),
            n <= len - pos,
            len == text@.len(),
            s == text@.skip(pos as int),
            forall|k: int| 0 <= k < i ==> s[k] == piece@[k],
        decreases n - i,
    {
        assert(s[i as int] == text@[pos + i]);
        if text[pos + i] != piece[i] {
            return None;
        }
        i += 1;
    }
    assert(s.skip(n as int) =~= text@.skip(pos + n));
    Some(pos + n)
}

/// Reads the header line at `pos`. Gives columns, rows and the position
/// after the line.
fn read_header(text: &[u8], pos: usize) -> (result: Result<(usize, usize, usize), RleError>)
    requires
        pos <= text@.len(),
    ensures
        match result {
            Ok((cols, rows, next)) => next <= text@.len() && header(text@.skip(pos as int)) == Ok::<
                (nat, nat, Seq<u8>),
                RleError,
            >((cols as nat, rows as nat, text@.skip(next as int))),
            Err(e) => header(text@.skip(pos as int)) == Err::<(nat, nat, Seq<u8>), RleError>(e),
        },
{
    let x = vec![120u8, 32u8, 61u8, 32u8];
    let y = vec![44u8, 32u8, 121u8, 32u8, 61u8, 32u8];
    let tail = vec![
        44u8, 32u8, 114u8, 117u8, 108u8, 101u8, 32u8, 61u8, 32u8, 66u8, 51u8, 47u8, 83u8, 50u8,
        51u8, 10u8,
    ];
    assert(x@ =~= header_x());
    assert(y@ =~= header_y());
    assert(tail@ =~= header_tail());
    let at_cols = match expect(text, pos, x.as_slice()) {
        Some(p) => p,
        None => {
            return Err(RleError::BadHeader);
        },
    };
    let (cols, at_y) = match read_number(text, at_cols) {
        Some(found) => found,
        None => {
            return Err(RleError::BadHeader);
        },
    };
    let at_rows = match expect(text, at_y, y.as_slice()) {
        Some(p) => p,
        None => {
            return Err(RleError::BadHeader);
        },
    };
    let (rows, at_tail) = match read_number(text, at_rows) {
        Some(found) => found,
        None => {
            return Err(RleError::BadHeader);
        },
    };
    let at_end = match expect(text, at_tail, tail.as_slice()) {
        Some(p) => p,
        None => {
            return Err(RleError::BadHeader);
        },
    };
    match (cols, rows) {
        (Some(c), Some(r)) => Ok((c, r, at_end)),
        _ => Err(RleError::TooLarge),
    }
}

/// Reads one row of `cols` cells and its row end at `pos`. Gives the cells
/// and the position after the row end.
fn read_row(text: &[u8], pos: usize, cols: usize) -> (result: Option<(Vec<bool>, usize)>)
    requires
        pos <= text@.len(),
    ensures
        match result {
            Some((cells, next)) => next <= text@.len() && row(text@.skip(pos as int), cols as nat)
                == Some((cells@, text@.skip(next as int))),
            None => row(text@.skip(pos as int), cols as nat) is None,
        },
{
    let len = text.len();
    let ghost s = text@.skip(pos as int);
    if cols >= len - pos {
        return None;
    }
    assert(s[cols as int] == text@[pos + cols]);
    if text[pos + cols] != ROW_END {
        return None;
    }
    let mut cells: Vec<bool> = Vec::new();
    let mut i: usize = 0;
    while i < cols
        invariant
            i <= cols,
            cols < len - pos,
            len == text@.len(),
            s == text@.skip(pos as int),
            cells@.len() == i,
            forall|k: int| 0 <= k < i ==> s[k] == LIVE || s[k] == DEAD,
            forall|k: int| 0 <= k < i ==> cells@[k] == (s[k] == LIVE),
        decreases cols - i,
    {
        assert(s[i as int] == text@[pos + i]);
        let b = text[pos + i];
        if b != LIVE && b != DEAD {
            return None;
        }
        cells.push(b == LIVE);
        i += 1;
    }
    assert(cells@ =~= Seq::new(cols as nat, |k: int| s[k] == LIVE));
    assert(s.skip(cols as int + 1) =~= text@.skip(pos + cols + 1));
    Some((cells, pos + cols + 1))
}

/// Reads `rows` rows of `cols` cells at `pos`. Gives the board and the
/// position after the last row.
fn read_body(text: &[u8], pos: usize, rows: usize, cols: usize) -> (result: Option<(Grid, usize)>)
    requires
        pos <= text@.len(),
    ensures
        match result {
            Some((grid, next)) => next <= text@.len() && body_rows(
                text@.skip(pos as int),
                rows as nat,
                cols as nat,
                Seq::empty(),
            ) == Some((grid@, text@.skip(next as int))),
            None => body_rows(text@.skip(pos as int), rows as nat, cols as nat, Seq::empty())
                is None,
        },
{
    let mut built: Vec<Vec<bool>> = Vec::new();
    let mut at: usize = pos;
    let mut r: usize = 0;
    let ghost whole = body_rows(text@.skip(pos as int), rows as nat, cols as nat, Seq::empty());
    assert(Seq::new(built@.len(), |i: int| built@[i]@) =~= Seq::<Seq<bool>>::empty());
    while r < rows
        invariant
            r <= rows,
            at <= text@.len(),
            whole == body_rows(text@.skip(pos as int), rows as nat, cols as nat, Seq::empty()),
            whole == body_rows(
                text@.skip(at as int),
                (rows - r) as nat,
                cols as nat,
                Seq::new(built@.len(), |i: int| built@[i]@),
            ),
        decreases rows - r,
    {
        let ghost above = Seq::new(built@.len(), |i: int| built@[i]@);
        match read_row(text, at, cols) {
            Some((cells, next)) => {
                built.push(cells);
                assert(Seq::new(built@.len(), |i: int| built@[i]@) =~= above.push(cells@));
                at = next;
            },
            None => {
                return None;
            },
        }
        r += 1;
    }
    let grid = Grid { cells: built };
    assert(grid@ =~= Seq::new(built@.len(), |i: int| built@[i]@));
    Some((grid, at))
}

/// Reads a pattern from its text.
///
/// The result is the pattern that the text holds (`parsed`), or the reason
/// why it holds none. Nothing but the text decides, and the text is not
/// changed.
pub fn parse(text: &[u8]) -> (result: Result<Pattern, RleError>)
    ensures
        match result {
            Ok(pattern) => parsed(text@) == Ok::<PatternView, RleError>(pattern@) && has_shape(
                pattern.cells@,
                pattern.rows as nat,
                pattern.cols as nat,
            ),
            Err(e) => parsed(text@) == Err::<PatternView, RleError>(e),
        },
{
    proof {
        parsed_board_has_header_shape(text@);
    }
    let (name, author, comments, at_header) = match read_meta(text) {
        Ok(found) => found,
        Err(e) => {
            return Err(e);
        },
    };
    let (cols, rows, at_body) = match read_header(text, at_header) {
        Ok(found) => found,
        Err(e) => {
            return Err(e);
        },
    };
    let (cells, at_close) = match read_body(text, at_body, rows, cols) {
        Some(found) => found,
        None => {
            return Err(RleError::BadBody);
        },
    };
    let ghost rest = text@.skip(at_close as int);
    if text.len() - at_close != 1 {
        assert(rest.len() != 1);
        return Err(RleError::BadBody);
    }
    assert(rest[0] == text@[at_close as int]);
    if text[at_close] != LINE_FEED {
        return Err(RleError::BadBody);
    }
    assert(rest =~= seq![LINE_FEED]);
    Ok(Pattern { name, author, comments, ruleset: Ruleset::Life, cols, rows, cells })
}

/// Appends the bytes of `piece` to `out`.
fn put(out: &mut Vec<u8>, piece: &[u8])
    ensures
        final(out)@ == old(out)@ + piece@,
{
    let n = piece.len();
    let mut i: usize = 0;
    while i < n
        invariant
            i <= n,
            n == piece@.len(),
            out@ == old(out)@ + piece@.subrange(0, i as int),
        decreases n - i,
    {
        out.push(piece[i]);
        i += 1;
        assert(out@ =~= old(out)@ + piece@.subrange(0, i as int));
    }
    assert(piece@.subrange(0, n as int) =~= piece@);
}

/// Appends the decimal digits of `n` to `out`.
fn put_number(out: &mut Vec<u8>, n: usize)
    ensures
        final(out)@ == old(out)@ + digits(n as nat),
    decreases n,
{
    if n < 10 {
        out.push(48 + n as u8);
        assert(out@ =~= old(out)@ + digits(n as nat));
    } else {
        put_number(out, n / 10);
        out.push(48 + (n % 10) as u8);
        assert(out@ =~= old(out)@ + digits(n as nat));
    }
}

/// Appends one line to `out`: the three bytes of the mark, the text, a line feed.
fn put_line(out: &mut Vec<u8>, letter: u8, text: &String)
    ensures
        final(out)@ == old(out)@ + marked_line(seq![HASH, letter, 32u8], encode_utf8(text@)),
{
    out.push(HASH);
    out.push(letter);
    out.push(32);
    put(out, text.as_str().as_bytes());
    out.push(LINE_FEED);
    assert(out@ =~= old(out)@ + marked_line(seq![HASH, letter, 32u8], encode_utf8(text@)));
}

/// Appends the header line to `out`.
fn put_header(out: &mut Vec<u8>, cols: usize, rows: usize, ruleset: Ruleset)
    ensures
        final(out)@ == old(out)@ + header_line(cols as nat, rows as nat, ruleset),
{
    let x = vec![120u8, 32u8, 61u8, 32u8];
    let y = vec![44u8, 32u8, 121u8, 32u8, 61u8, 32u8];
    let rule = vec![44u8, 32u8, 114u8, 117u8, 108u8, 101u8, 32u8, 61u8, 32u8];
    let life = vec![66u8, 51u8, 47u8, 83u8, 50u8, 51u8];
    assert(x@ =~= header_x());
    assert(y@ =~= header_y());
    assert(rule@ =~= header_rule());
    assert(life@ =~= rule_text(ruleset));
    put(out, x.as_slice());
    put_number(out, cols);
    put(out, y.as_slice());
    put_number(out, rows);
    put(out, rule.as_slice());
    put(out, life.as_slice());
    out.push(LINE_FEED);
    assert(out@ =~= old(out)@ + header_line(cols as nat, rows as nat, ruleset));
}

/// Appends one row of cells to `out`.
fn put_row(out: &mut Vec<u8>, row: &Vec<bool>)
    ensures
        final(out)@ == old(out)@ + row_text(row@),
{
    let n = row.len();
    let mut c: usize = 0;
    while c < n
        invariant
            c <= n,
            n == row@.len(),
            out@ == old(out)@ + Seq::new(c as nat, |i: int| cell_byte(row@[i])),
        decreases n - c,
    {
        out.push(if row[c] { LIVE } else { DEAD });
        c += 1;
        assert(out@ =~= old(out)@ + Seq::new(c as nat, |i: int| cell_byte(row@[i])));
    }
    out.push(ROW_END);
    assert(out@ =~= old(out)@ + row_text(row@));
}

/// Writes a pattern as text.
///
/// The header gives the dimensions as they are handed in; the board is
/// written row by row as it stands.
pub fn to_text(metadata: &Metadata, rows: usize, cols: usize, grid: &Grid) -> (text: Vec<u8>)
    ensures
        text@ == pattern_text(pattern_of(*metadata, rows as nat, cols as nat, grid@)),
{
    let ghost p = pattern_of(*metadata, rows as nat, cols as nat, grid@);
    let mut out: Vec<u8> = Vec::new();
    match &metadata.name {
        Some(name) => {
            put_line(&mut out, 78, name);
        },
        None => {},
    }
    assert(out@ =~= optional_line(name_mark(), p.name));
    match &metadata.author {
        Some(author) => {
            put_line(&mut out, 79, author);
        },
        None => {},
    }
    assert(out@ =~= optional_line(name_mark(), p.name) + optional_line(author_mark(), p.author));
    let ghost head = out@;
    let count = metadata.comments.len();
    let mut i: usize = 0;
    while i < count
        invariant
            i <= count,
            count == metadata.comments@.len(),
            p == pattern_of(*metadata, rows as nat, cols as nat, grid@),
            out@ == head + comment_lines(p.comments.take(i as int)),
        decreases count - i,
    {
        put_line(&mut out, 67, &metadata.comments[i]);
        proof {
            let next = p.comments.take(i + 1);
            assert(next.drop_last() =~= p.comments.take(i as int));
            assert(next.last() == encode_utf8(metadata.comments@[i as int]@));
        }
        i += 1;
    }
    assert(p.comments.take(count as int) =~= p.comments);
    put_header(&mut out, cols, rows, metadata.ruleset);
    let ghost lead = out@;
    let height = grid.cells.len();
    let mut r: usize = 0;
    while r < height
        invariant
            r <= height,
            height == grid@.len(),
            height == grid.cells@.len(),
            out@ == lead + rows_text(grid@.take(r as int)),
        decreases height - r,
    {
        put_row(&mut out, &grid.cells[r]);
        proof {
            let next = grid@.take(r + 1);
            assert(next.drop_last() =~= grid@.take(r as int));
            assert(next.last() == grid.cells@[r as int]@);
        }
        r += 1;
    }
    assert(grid@.take(height as int) =~= grid@);
    out.push(LINE_FEED);
    assert(out@ =~= pattern_text(p));
    out
}

} // verus!
