//! The console block for one recognised packet: a header line, the payload
//! as rows of hexadecimal octets beside an ASCII sidebar, and a closing rule.

use vstd::prelude::*;
use vstd::string::StringExecFns;
use crate::layout::least;
use crate::packets::GettableEndpoints;
use crate::text::{hex_char, hex_octet, push_char, push_hex_octet};

verus! {

/// Octets shown per row.
pub const WIDTH: usize = 20;

/// Whether `b` is an ASCII letter, `A` to `Z` or `a` to `z`.
pub open spec fn is_letter(b: u8) -> bool {
    (0x41 <= b <= 0x5A) || (0x61 <= b <= 0x7A)
}

/// What the sidebar shows for `b`: the letter itself, a dot for anything else.
pub open spec fn sidebar_char(b: u8) -> char {
    if is_letter(b) {
        b as char
    } else {
        '.'
    }
}

/// The sidebar of a row: one character for each octet.
pub open spec fn sidebar(chunk: Seq<u8>) -> Seq<char> {
    Seq::new(chunk.len(), |i: int| sidebar_char(chunk[i]))
}

/// The hexadecimal part of a row: for each octet two digits and a space.
pub open spec fn hex_cells(chunk: Seq<u8>) -> Seq<char> {
    Seq::new(
        3 * chunk.len(),
        |i: int|
            if i % 3 == 0 {
                hex_char(chunk[i / 3] as int / 16)
            } else if i % 3 == 1 {
                hex_char(chunk[i / 3] as int % 16)
            } else {
                ' '
            },
    )
}

/// `n` times the character `c`.
pub open spec fn repeated(c: char, n: nat) -> Seq<char> {
    Seq::new(n, |i: int| c)
}

/// One row of the dump. The hexadecimal part of a short row is filled up
/// with spaces, so that the sidebar starts in the same column in every row.
pub open spec fn row_text(chunk: Seq<u8>, width: nat) -> Seq<char> {
    hex_cells(chunk) + repeated(' ', (3 * (width - chunk.len())) as nat) + seq!['|', ' ']
        + sidebar(chunk) + seq!['\n']
}

/// The number of rows that `len` octets take: `len / width`, rounded up.
pub open spec fn row_count(len: nat, width: nat) -> nat {
    ((len + width - 1) / (width as int)) as nat
}

/// The octets of row `r`: the next `width` of them, or those that are left.
pub open spec fn row_slice(payload: Seq<u8>, width: nat, r: int) -> Seq<u8> {
    payload.subrange(r * width, least((r + 1) * width, payload.len() as int))
}

/// The first `n` rows of the dump, one after another.
pub open spec fn rows_text(payload: Seq<u8>, width: nat, n: nat) -> Seq<char>
    decreases n,
{
    if n == 0 {
        Seq::empty()
    } else {
        rows_text(payload, width, (n - 1) as nat) + row_text(
            row_slice(payload, width, n - 1),
            width,
        )
    }
}

/// The whole dump of a payload.
pub open spec fn dump_text(payload: Seq<u8>, width: nat) -> Seq<char> {
    rows_text(payload, width, row_count(payload.len(), width))
}

/// The line that says what was captured.
pub open spec fn header_text(
    proto: Seq<char>,
    l3_source: Seq<char>,
    l4_source: Seq<char>,
    l3_destination: Seq<char>,
    l4_destination: Seq<char>,
) -> Seq<char> {
    "Captured a "@ + proto + " packet from "@ + l3_source + "|"@ + l4_source + " to "@
        + l3_destination + "|"@ + l4_destination + "\n"@
}

/// The closing rule, as wide as the hexadecimal part of a row, and the
/// empty line after it.
pub open spec fn footer_text(width: nat) -> Seq<char> {
    repeated('=', 3 * width) + "\n\n"@
}

/// The whole block for one packet: the header line, the rows of the dump,
/// the closing rule and an empty line.
pub open spec fn packet_info_text(
    proto: Seq<char>,
    l3_source: Seq<char>,
    l4_source: Seq<char>,
    l3_destination: Seq<char>,
    l4_destination: Seq<char>,
    payload: Seq<u8>,
    width: nat,
) -> Seq<char> {
    header_text(proto, l3_source, l4_source, l3_destination, l4_destination) + dump_text(
        payload,
        width,
    ) + footer_text(width)
}

/// Whether `b` is an ASCII letter.
pub fn is_ascii_letter(b: u8) -> (r: bool)
    ensures
        r == is_letter(b),
{
    (0x41 <= b && b <= 0x5A) || (0x61 <= b && b <= 0x7A)
}

proof fn lemma_hex_cells_push(chunk: Seq<u8>, b: u8)
    ensures
        hex_cells(chunk.push(b)) == hex_cells(chunk) + hex_octet(b) + seq![' '],
{
    assert(hex_cells(chunk.push(b)) =~= hex_cells(chunk) + hex_octet(b) + seq![' ']);
}

proof fn lemma_sidebar_push(chunk: Seq<u8>, b: u8)
    ensures
        sidebar(chunk.push(b)) == sidebar(chunk).push(sidebar_char(b)),
{
    assert(sidebar(chunk.push(b)) =~= sidebar(chunk).push(sidebar_char(b)));
}

/// Appends `n` times the character `c` to `text`.
fn push_repeated(text: &mut String, c: char, n: usize)
    ensures
        final(text)@ == old(text)@ + repeated(c, n as nat),
{
    let mut i: usize = 0;
    while i < n
        invariant
            i <= n,
            text@ == old(text)@ + repeated(c, i as nat),
        decreases n - i,
    {
        push_char(text, c);
        i = i + 1;
        assert(repeated(c, i as nat) =~= repeated(c, (i - 1) as nat).push(c));
    }
}

/// Appends the row that shows `payload[start..end]` to `text`.
fn push_row(text: &mut String, payload: &[u8], start: usize, end: usize, width: usize)
    requires
        start <= end <= payload@.len(),
        end - start <= width <= usize::MAX / 3,
    ensures
        final(text)@ == old(text)@ + row_text(
            payload@.subrange(start as int, end as int),
            width as nat,
        ),
{
    let ghost chunk = payload@.subrange(start as int, end as int);
    let mut i: usize = start;
    while i < end
        invariant
            start <= i <= end <= payload@.len(),
            text@ == old(text)@ + hex_cells(payload@.subrange(start as int, i as int)),
        decreases end - i,
    {
        proof {
            lemma_hex_cells_push(payload@.subrange(start as int, i as int), payload@[i as int]);
            assert(payload@.subrange(start as int, i + 1) =~= payload@.subrange(
                start as int,
                i as int,
            ).push(payload@[i as int]));
        }
        push_hex_octet(text, payload[i]);
        push_char(text, ' ');
        i = i + 1;
    }
    push_repeated(text, ' ', 3 * (width - (end - start)));
    push_char(text, '|');
    push_char(text, ' ');
    let ghost before = text@;
    assert(before =~= old(text)@ + hex_cells(chunk) + repeated(
        ' ',
        (3 * (width - chunk.len())) as nat,
    ) + seq!['|', ' ']);
    let mut j: usize = start;
    while j < end
        invariant
            start <= j <= end <= payload@.len(),
            text@ == before + sidebar(payload@.subrange(start as int, j as int)),
        decreases end - j,
    {
        proof {
            lemma_sidebar_push(payload@.subrange(start as int, j as int), payload@[j as int]);
            assert(payload@.subrange(start as int, j + 1) =~= payload@.subrange(
                start as int,
                j as int,
            ).push(payload@[j as int]));
        }
        let b: u8 = payload[j];
        if is_ascii_letter(b) {
            push_char(text, b as char);
        } else {
            push_char(text, '.');
        }
        j = j + 1;
    }
    push_char(text, '\n');
    assert(text@ =~= old(text)@ + row_text(chunk, width as nat));
}

/// A number of rows that reaches the end of the octets, but not with a row
/// to spare, is the number of octets divided by the width and rounded up.
proof fn lemma_row_count(len: nat, width: nat, r: nat)
    requires
        width > 0,
        r * width >= len,
        r == 0 || (r - 1) * width < len,
    ensures
        r == row_count(len, width),
{
    let q = row_count(len, width);
    lemma_row_count_is_ceiling(len, width);
    assert(r == q) by (nonlinear_arith)
        requires
            (q - 1) * width < len <= q * width,
            len == 0 ==> q == 0,
            r * width >= len,
            r == 0 || (r - 1) * width < len,
            width > 0,
    ;
}

/// Appends the dump of `payload` to `text`, `width` octets to a row.
pub fn push_dump(text: &mut String, payload: &[u8], width: usize)
    requires
        0 < width <= usize::MAX / 3,
    ensures
        final(text)@ == old(text)@ + dump_text(payload@, width as nat),
{
    let len: usize = payload.len();
    let mut start: usize = 0;
    let ghost mut r: nat = 0;
    while start < len
        invariant
            len == payload@.len(),
            0 < width <= usize::MAX / 3,
            start == least(r * width, len as int),
            r == 0 || (r - 1) * width < len,
            text@ == old(text)@ + rows_text(payload@, width as nat, r),
        decreases len - start,
    {
        let end: usize = if len - start > width {
            start + width
        } else {
            len
        };
        proof {
            assert((r + 1) * width == r * width + width) by (nonlinear_arith);
            assert(payload@.subrange(start as int, end as int) == row_slice(
                payload@,
                width as nat,
                r as int,
            ));
        }
        push_row(text, payload, start, end, width);
        start = end;
        proof {
            r = r + 1;
        }
    }
    proof {
        assert(r * width >= len);
        lemma_row_count(len as nat, width as nat, r);
    }
}

/// The dump of `payload`, `width` octets to a row.
pub fn hex_dump(payload: &[u8], width: usize) -> (r: String)
    requires
        0 < width <= usize::MAX / 3,
    ensures
        r@ == dump_text(payload@, width as nat),
{
    let mut text = String::new();
    push_dump(&mut text, payload, width);
    text
}

/// The block that is written to the console for one packet: who sent it to
/// whom at the network layer `l3` and the transport layer `l4`, and what
/// `l4` carries.
pub fn render_packet_info<L3: GettableEndpoints + ?Sized, L4: GettableEndpoints + ?Sized>(
    l3: &L3,
    l4: &L4,
    proto: &str,
) -> (r: String)
    ensures
        r@ == packet_info_text(
            proto@,
            l3.source(),
            l4.source(),
            l3.destination(),
            l4.destination(),
            l4.payload(),
            WIDTH as nat,
        ),
{
    let mut text = String::new();
    text.append("Captured a ");
    text.append(proto);
    text.append(" packet from ");
    text.append(l3.get_source().as_str());
    text.append("|");
    text.append(l4.get_source().as_str());
    text.append(" to ");
    text.append(l3.get_destination().as_str());
    text.append("|");
    text.append(l4.get_destination().as_str());
    text.append("\n");
    push_dump(&mut text, l4.get_payload(), WIDTH);
    push_repeated(&mut text, '=', 3 * WIDTH);
    text.append("\n\n");
    text
}

/// The number of line breaks in a text.
pub open spec fn line_breaks(text: Seq<char>) -> nat
    decreases text.len(),
{
    if text.len() == 0 {
        0
    } else {
        line_breaks(text.drop_last()) + if text.last() == '\n' {
            1nat
        } else {
            0nat
        }
    }
}

/// The sidebar shows a letter as itself and everything else as a dot. A
/// digit or a punctuation mark is never shown as itself, the dot apart.
pub proof fn lemma_sidebar_rule(b: u8)
    ensures
        is_letter(b) <==> (0x41 <= b <= 0x5A || 0x61 <= b <= 0x7A),
        is_letter(b) ==> sidebar_char(b) == b as char,
        !is_letter(b) ==> sidebar_char(b) == '.',
        b != 0x2E ==> (sidebar_char(b) == b as char <==> is_letter(b)),
{
}

/// The number of rows is the number of octets divided by the width, rounded
/// up: no rows for no octets, and otherwise the least number of rows of
/// `width` octets that hold them all.
pub proof fn lemma_row_count_is_ceiling(len: nat, width: nat)
    requires
        width > 0,
    ensures
        len == 0 ==> row_count(len, width) == 0,
        len > 0 ==> row_count(len, width) >= 1,
        (row_count(len, width) - 1) * width < len <= row_count(len, width) * width,
{
    let q = (len + width - 1) / (width as int);
    assert(q * width <= len + width - 1 < (q + 1) * width && q >= 0) by (nonlinear_arith)
        requires
            q == (len + width - 1) / (width as int),
            width > 0,
    ;
    assert((q - 1) * width == q * width - width && (q + 1) * width == q * width + width)
        by (nonlinear_arith);
    if len == 0 {
        assert(q == 0) by (nonlinear_arith)
            requires
                q * width <= width - 1,
                q >= 0,
                width > 0,
        ;
    } else {
        assert(q >= 1) by (nonlinear_arith)
            requires
                q * width > 0,
                width > 0,
        ;
    }
}

/// Every row shows at least one octet and at most `width`: the rows before
/// the last show `width` octets each, the last one shows the rest. Row after
/// row, they show every octet of the payload once.
pub proof fn lemma_row_slices(payload: Seq<u8>, width: nat, r: int)
    requires
        width > 0,
        0 <= r < row_count(payload.len(), width),
    ensures
        1 <= row_slice(payload, width, r).len() <= width,
        row_slice(payload, width, r).len() == least(width as int, payload.len() - r * width),
        r + 1 < row_count(payload.len(), width) ==> row_slice(payload, width, r).len() == width,
        forall|i: int|
            0 <= i < row_slice(payload, width, r).len() ==> row_slice(payload, width, r)[i]
                == payload[r * width + i],
{
    lemma_row_count_is_ceiling(payload.len(), width);
    let n = row_count(payload.len(), width) as int;
    assert(r * width <= (n - 1) * width) by (nonlinear_arith)
        requires
            r <= n - 1,
            width > 0,
    ;
    assert(0 <= r * width) by (nonlinear_arith)
        requires
            0 <= r,
            width > 0,
    ;
    assert((r + 1) * width == r * width + width) by (nonlinear_arith);
    if r + 1 < n {
        assert((r + 1) * width <= (n - 1) * width) by (nonlinear_arith)
            requires
                r + 1 <= n - 1,
                width > 0,
        ;
    }
}

/// The shape of a row. The octets stand first, each as two hexadecimal
/// digits and a space, so a row shows as many octets as its slice has;
/// spaces fill the hexadecimal part up to `3 * width` columns; then come the
/// bar, a space, one sidebar character for each octet, and the line break.
pub proof fn lemma_row_shape(chunk: Seq<u8>, width: nat)
    requires
        chunk.len() <= width,
    ensures
        row_text(chunk, width).len() == 3 * width + 3 + chunk.len(),
        row_text(chunk, width).subrange(0, 3 * chunk.len() as int) == hex_cells(chunk),
        forall|j: int|
            #![trigger chunk[j]]
            0 <= j < chunk.len() ==> {
                &&& row_text(chunk, width)[3 * j] == hex_char(chunk[j] as int / 16)
                &&& row_text(chunk, width)[3 * j + 1] == hex_char(chunk[j] as int % 16)
                &&& row_text(chunk, width)[3 * j + 2] == ' '
                &&& row_text(chunk, width)[3 * width + 2 + j] == sidebar_char(chunk[j])
            },
        forall|i: int| 3 * chunk.len() <= i < 3 * width ==> row_text(chunk, width)[i] == ' ',
        row_text(chunk, width)[3 * width as int] == '|',
        row_text(chunk, width)[3 * width as int + 1] == ' ',
        row_text(chunk, width)[3 * width as int + 2 + chunk.len()] == '\n',
{
    let row = row_text(chunk, width);
    let cells = hex_cells(chunk);
    let fill = repeated(' ', (3 * (width - chunk.len())) as nat);
    assert(row == cells + fill + seq!['|', ' '] + sidebar(chunk) + seq!['\n']);
    assert(cells.len() + fill.len() == 3 * width);
    assert(row.subrange(0, 3 * chunk.len() as int) =~= cells);
    assert forall|j: int| #![trigger chunk[j]] 0 <= j < chunk.len() implies {
        &&& row[3 * j] == hex_char(chunk[j] as int / 16)
        &&& row[3 * j + 1] == hex_char(chunk[j] as int % 16)
        &&& row[3 * j + 2] == ' '
        &&& row[3 * width + 2 + j] == sidebar_char(chunk[j])
    } by {
        assert(row[3 * j] == cells[3 * j]);
        assert(row[3 * j + 1] == cells[3 * j + 1]);
        assert(row[3 * j + 2] == cells[3 * j + 2]);
        assert(row[3 * width + 2 + j] == sidebar(chunk)[j]);
    }
    assert forall|i: int| 3 * chunk.len() <= i < 3 * width implies row[i] == ' ' by {
        assert(row[i] == fill[i - 3 * chunk.len()]);
    }
}

proof fn lemma_line_breaks_concat(a: Seq<char>, b: Seq<char>)
    ensures
        line_breaks(a + b) == line_breaks(a) + line_breaks(b),
    decreases b.len(),
{
    if b.len() == 0 {
        assert(a + b =~= a);
    } else {
        assert((a + b).drop_last() =~= a + b.drop_last());
        lemma_line_breaks_concat(a, b.drop_last());
    }
}

proof fn lemma_no_line_breaks(text: Seq<char>)
    requires
        forall|i: int| 0 <= i < text.len() ==> text[i] != '\n',
    ensures
        line_breaks(text) == 0,
    decreases text.len(),
{
    if text.len() > 0 {
        lemma_no_line_breaks(text.drop_last());
    }
}

proof fn lemma_row_is_one_line(chunk: Seq<u8>, width: nat)
    ensures
        line_breaks(row_text(chunk, width)) == 1,
{
    let body = hex_cells(chunk) + repeated(' ', (3 * (width - chunk.len())) as nat) + seq![
        '|',
        ' ',
    ] + sidebar(chunk);
    assert forall|i: int| 0 <= i < body.len() implies body[i] != '\n' by {
        if i < 3 * chunk.len() {
            assert(body[i] == hex_cells(chunk)[i]);
        }
    }
    lemma_no_line_breaks(body);
    assert(row_text(chunk, width).drop_last() =~= body);
}

proof fn lemma_rows_are_lines(payload: Seq<u8>, width: nat, n: nat)
    ensures
        line_breaks(rows_text(payload, width, n)) == n,
    decreases n,
{
    if n > 0 {
        lemma_rows_are_lines(payload, width, (n - 1) as nat);
        lemma_row_is_one_line(row_slice(payload, width, n - 1), width);
        lemma_line_breaks_concat(
            rows_text(payload, width, (n - 1) as nat),
            row_text(row_slice(payload, width, n - 1), width),
        );
    }
}

/// The dump of `len` octets has `len / width` lines, rounded up: none for an
/// empty payload.
pub proof fn lemma_dump_lines(payload: Seq<u8>, width: nat)
    requires
        width > 0,
    ensures
        line_breaks(dump_text(payload, width)) == row_count(payload.len(), width),
        payload.len() == 0 ==> dump_text(payload, width) == Seq::<char>::empty(),
{
    lemma_rows_are_lines(payload, width, row_count(payload.len(), width));
    lemma_row_count_is_ceiling(payload.len(), width);
}

proof fn lemma_rows_len(payload: Seq<u8>, width: nat, n: nat)
    requires
        width > 0,
        n <= row_count(payload.len(), width),
    ensures
        rows_text(payload, width, n).len() == n * (3 * width + 3) + least(
            (n * width) as int,
            payload.len() as int,
        ),
    decreases n,
{
    if n == 0 {
        assert(n * (3 * width + 3) == 0 && n * width == 0) by (nonlinear_arith)
            requires
                n == 0,
        ;
    } else {
        let m = (n - 1) as nat;
        let rows = row_count(payload.len(), width);
        let slice = row_slice(payload, width, m as int);
        lemma_rows_len(payload, width, m);
        lemma_row_slices(payload, width, m as int);
        lemma_row_shape(slice, width);
        lemma_row_count_is_ceiling(payload.len(), width);
        assert(m * width <= (rows - 1) * width) by (nonlinear_arith)
            requires
                m <= rows - 1,
                width > 0,
        ;
        assert(n * (3 * width + 3) == m * (3 * width + 3) + 3 * width + 3 && n * width == m
            * width + width) by (nonlinear_arith)
            requires
                n == m + 1,
        ;
        assert(rows_text(payload, width, n) == rows_text(payload, width, m) + row_text(
            slice,
            width,
        ));
        assert(rows_text(payload, width, n).len() == rows_text(payload, width, m).len() + 3
            * width + 3 + slice.len());
    }
}

proof fn lemma_rows_prefix(payload: Seq<u8>, width: nat, n: nat, m: nat)
    requires
        n <= m,
    ensures
        rows_text(payload, width, n).len() <= rows_text(payload, width, m).len(),
        rows_text(payload, width, m).subrange(0, rows_text(payload, width, n).len() as int)
            == rows_text(payload, width, n),
    decreases m,
{
    if n == m {
        assert(rows_text(payload, width, m).subrange(
            0,
            rows_text(payload, width, n).len() as int,
        ) =~= rows_text(payload, width, n));
    } else {
        lemma_rows_prefix(payload, width, n, (m - 1) as nat);
        assert(rows_text(payload, width, m).subrange(
            0,
            rows_text(payload, width, n).len() as int,
        ) =~= rows_text(payload, width, (m - 1) as nat).subrange(
            0,
            rows_text(payload, width, n).len() as int,
        ));
    }
}

/// Where the rows stand in the dump. Every row before the last takes
/// `4 * width + 3` characters, so row `r` starts at `r` times as many, and
/// what stands there is the row of the octets of slice `r`. The dump ends
/// with its last row.
pub proof fn lemma_dump_row(payload: Seq<u8>, width: nat, r: int)
    requires
        width > 0,
        0 <= r < row_count(payload.len(), width),
    ensures
        ({
            let dump = dump_text(payload, width);
            let row = row_text(row_slice(payload, width, r), width);
            let start = r * (4 * width + 3);
            &&& start + row.len() <= dump.len()
            &&& dump.subrange(start, start + row.len()) == row
            &&& dump.len() == row_count(payload.len(), width) * (3 * width + 3) + payload.len()
        }),
{
    let rows = row_count(payload.len(), width);
    let dump = dump_text(payload, width);
    let row = row_text(row_slice(payload, width, r), width);
    let before = rows_text(payload, width, r as nat);
    let through = rows_text(payload, width, (r + 1) as nat);
    lemma_row_count_is_ceiling(payload.len(), width);
    lemma_rows_len(payload, width, r as nat);
    lemma_rows_len(payload, width, rows);
    lemma_rows_prefix(payload, width, (r + 1) as nat, rows);
    assert(r * width <= (rows - 1) * width) by (nonlinear_arith)
        requires
            r <= rows - 1,
            width > 0,
    ;
    assert(r * (4 * width + 3) == r * (3 * width + 3) + r * width) by (nonlinear_arith);
    assert(before.len() == r * (4 * width + 3));
    assert(through == before + row);
    let start = before.len() as int;
    let end = start + row.len();
    assert(dump.subrange(start, end) =~= through.subrange(start, end));
    assert(through.subrange(start, end) =~= row);
}

} // verus!
