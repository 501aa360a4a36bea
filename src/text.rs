use crate::comparison::{names_view, opt_bytes, Comparison, ComparisonView, Diff, DiffView};
use crate::range_chunks::ChunkableRange;
use vstd::prelude::*;
use vstd::string::StringExecFns;

verus! {

/// The text of the byte string `b`, each invalid UTF-8 sequence replaced.
pub uninterp spec fn lossy_text(b: Seq<u8>) -> Seq<char>;

/// Relies on String::from_utf8_lossy: the text of a byte string, invalid
/// sequences replaced by U+FFFD; it depends on the bytes alone.
#[verifier::external_body]
fn lossy(b: &[u8]) -> (r: String)
    ensures
        r@ == lossy_text(b@),
{
    String::from_utf8_lossy(b).into_owned()
}

/// The digit of value `d`, below sixteen.
pub open spec fn digit_char(d: int) -> char {
    if d == 0 {
        '0'
    } else if d == 1 {
        '1'
    } else if d == 2 {
        '2'
    } else if d == 3 {
        '3'
    } else if d == 4 {
        '4'
    } else if d == 5 {
        '5'
    } else if d == 6 {
        '6'
    } else if d == 7 {
        '7'
    } else if d == 8 {
        '8'
    } else if d == 9 {
        '9'
    } else if d == 10 {
        'a'
    } else if d == 11 {
        'b'
    } else if d == 12 {
        'c'
    } else if d == 13 {
        'd'
    } else if d == 14 {
        'e'
    } else {
        'f'
    }
}

/// `n` written in base `base`, without leading zeros.
pub open spec fn radix_text(n: nat, base: nat) -> Seq<char>
    decreases n,
{
    if base < 2 || n < base {
        seq![digit_char(n as int)]
    } else {
        proof {
            vstd::arithmetic::div_mod::lemma_div_decreases(n as int, base as int);
        }
        radix_text(n / base, base) + seq![digit_char((n % base) as int)]
    }
}

/// The single digit of value `d`.
fn digit_str(d: u64) -> (r: &'static str)
    requires
        d < 16,
    ensures
        r@ == seq![digit_char(d as int)],
{
    proof {
        reveal_strlit("0");
        reveal_strlit("1");
        reveal_strlit("2");
        reveal_strlit("3");
        reveal_strlit("4");
        reveal_strlit("5");
        reveal_strlit("6");
        reveal_strlit("7");
        reveal_strlit("8");
        reveal_strlit("9");
        reveal_strlit("a");
        reveal_strlit("b");
        reveal_strlit("c");
        reveal_strlit("d");
        reveal_strlit("e");
        reveal_strlit("f");
    }
    let r = if d == 0 {
        "0"
    } else if d == 1 {
        "1"
    } else if d == 2 {
        "2"
    } else if d == 3 {
        "3"
    } else if d == 4 {
        "4"
    } else if d == 5 {
        "5"
    } else if d == 6 {
        "6"
    } else if d == 7 {
        "7"
    } else if d == 8 {
        "8"
    } else if d == 9 {
        "9"
    } else if d == 10 {
        "a"
    } else if d == 11 {
        "b"
    } else if d == 12 {
        "c"
    } else if d == 13 {
        "d"
    } else if d == 14 {
        "e"
    } else {
        "f"
    };
    assert(r@ =~= seq![digit_char(d as int)]);
    r
}

/// Appends `n` written in base `base`.
pub fn push_radix(out: &mut String, n: u64, base: u64)
    requires
        2 <= base <= 16,
    ensures
        final(out)@ == old(out)@ + radix_text(n as nat, base as nat),
    decreases n,
{
    let ghost before = out@;
    if n >= base {
        proof {
            vstd::arithmetic::div_mod::lemma_div_decreases(n as int, base as int);
        }
        push_radix(out, n / base, base);
    } else {
        proof {
            vstd::arithmetic::div_mod::lemma_small_mod(n as nat, base as nat);
        }
    }
    out.append(digit_str(n % base));
    assert(out@ =~= before + radix_text(n as nat, base as nat));
}

/// How many bytes a line of a hex dump shows.
pub const BYTES_IN_LINE: u64 = 32;

/// The cell of byte `i` in a hex dump of `data`: two hex digits and a space,
/// followed by a line break at the end of each line of `BYTES_IN_LINE`
/// bytes and after the last byte.
pub open spec fn byte_cell(data: Seq<u8>, i: int) -> Seq<char> {
    seq![digit_char(data[i] as int / 16), digit_char(data[i] as int % 16), ' '] + if i % 32 == 31 || i == data.len()
        - 1 {
        seq!['\n']
    } else {
        Seq::<char>::empty()
    }
}

/// The cells of the first `n` bytes of `data`.
pub open spec fn cells_text(data: Seq<u8>, n: int) -> Seq<char>
    decreases n,
{
    if n <= 0 {
        Seq::<char>::empty()
    } else {
        cells_text(data, n - 1) + byte_cell(data, n - 1)
    }
}

/// A hex dump of `data`.
pub open spec fn block_text(data: Seq<u8>) -> Seq<char> {
    cells_text(data, data.len() as int)
}

/// Appends a hex dump of `data`, one line for each `BYTES_IN_LINE` bytes.
pub fn format_block(out: &mut String, data: &[u8])
    ensures
        final(out)@ == old(out)@ + block_text(data@),
{
    let ghost base = out@;
    let len = data.len() as u64;
    let mut rows = (0..len).chunks(BYTES_IN_LINE);
    loop
        invariant
            len == data@.len(),
            rows@.size == 32,
            rows@.leap == 32,
            rows@.end == len,
            rows@.start >= len || rows@.start % 32 == 0,
            out@ == base + cells_text(data@, if rows@.start < len { rows@.start as int } else { len as int }),
        ensures
            out@ == base + block_text(data@),
        decreases (len as int) - (if rows@.start < len { rows@.start as int } else { len as int }),
    {
        let row = match rows.next() {
            Some(row) => row,
            None => {
                break;
            },
        };
        let mut i = row.start;
        while i < row.end
            invariant
                len == data@.len(),
                row.start % 32 == 0,
                row.end == if row.start + 32 < len { row.start + 32 } else { len as int },
                row.start <= i <= row.end,
                out@ == base + cells_text(data@, i as int),
            decreases row.end - i,
        {
            let ghost before = out@;
            let b = data[i as usize];
            out.append(digit_str((b / 16) as u64));
            out.append(digit_str((b % 16) as u64));
            proof {
                reveal_strlit(" ");
                reveal_strlit("\n");
            }
            out.append(" ");
            if i + 1 == row.end {
                out.append("\n");
            }
            assert(i % 32 == 31 || i == len - 1 <==> i + 1 == row.end);
            assert(out@ =~= before + byte_cell(data@, i as int));
            i += 1;
        }
    }
}

/// `"\nFrom \"path\": "`.
pub open spec fn from_text(path: Seq<char>) -> Seq<char> {
    "\nFrom \""@ + path + "\": "@
}

/// A titled pair of values, each after the root it comes from.
pub open spec fn pair_text(
    title: Seq<char>,
    first_path: Seq<char>,
    a: Seq<char>,
    second_path: Seq<char>,
    b: Seq<char>,
) -> Seq<char> {
    title + from_text(first_path) + a + from_text(second_path) + b
}

/// `t` in double quotes.
pub open spec fn quoted(t: Seq<char>) -> Seq<char> {
    "\""@ + t + "\""@
}

/// A path that may be absent: `-`, or the path in quotes.
pub open spec fn opt_path_text(o: Option<Seq<u8>>) -> Seq<char> {
    match o {
        Some(p) => quoted(lossy_text(p)),
        None => "-"@,
    }
}

/// One line for each of the first `n` names, indented and quoted.
pub open spec fn name_lines(names: Seq<Seq<u8>>, n: int) -> Seq<char>
    decreases n,
{
    if n <= 0 {
        Seq::<char>::empty()
    } else {
        name_lines(names, n - 1) + "    "@ + quoted(lossy_text(names[n - 1])) + ",\n"@
    }
}

/// A set of names in braces, one to a line.
pub open spec fn names_text(names: Seq<Seq<u8>>) -> Seq<char> {
    if names.len() == 0 {
        "{}"@
    } else {
        "{\n"@ + name_lines(names, names.len() as int) + "}"@
    }
}

/// A content difference: the block number, then the block from each root.
pub open spec fn contents_text(
    lba: u64,
    first_path: Seq<char>,
    first: Seq<u8>,
    second_path: Seq<char>,
    second: Seq<u8>,
) -> Seq<char> {
    "Block "@ + radix_text(lba as nat, 10) + "\nFrom \""@ + first_path + "\":\n"@ + block_text(first)
        + "\nFrom \""@ + second_path + "\":\n"@ + block_text(second)
}

/// The description of a difference between the roots `first_path` and
/// `second_path`.
pub open spec fn diff_text(d: DiffView, first_path: Seq<char>, second_path: Seq<char>) -> Seq<char> {
    match d {
        DiffView::Modes(a, b) => pair_text(
            "File mode"@,
            first_path,
            "0o"@ + radix_text(a as nat, 8),
            second_path,
            "0o"@ + radix_text(b as nat, 8),
        ),
        DiffView::Nlinks(a, b) => pair_text(
            "Hard links number"@,
            first_path,
            radix_text(a as nat, 10),
            second_path,
            radix_text(b as nat, 10),
        ),
        DiffView::Uids(a, b) => pair_text(
            "UID"@,
            first_path,
            radix_text(a as nat, 10),
            second_path,
            radix_text(b as nat, 10),
        ),
        DiffView::Gids(a, b) => pair_text(
            "GID"@,
            first_path,
            radix_text(a as nat, 10),
            second_path,
            radix_text(b as nat, 10),
        ),
        DiffView::Inodes(a, b) => pair_text(
            "Inodes"@,
            first_path,
            opt_path_text(a),
            second_path,
            opt_path_text(b),
        ),
        DiffView::Sizes(a, b) => pair_text(
            "Size"@,
            first_path,
            radix_text(a as nat, 10),
            second_path,
            radix_text(b as nat, 10),
        ),
        DiffView::Contents(lba, a, b) => contents_text(lba, first_path, a, second_path, b),
        DiffView::DeviceTypes(a, b) => pair_text(
            "Device type"@,
            first_path,
            radix_text(a as nat, 10),
            second_path,
            radix_text(b as nat, 10),
        ),
        DiffView::LinkTarget(a, b) => pair_text(
            "Link target"@,
            first_path,
            quoted(lossy_text(a)),
            second_path,
            quoted(lossy_text(b)),
        ),
        DiffView::DirContents(a, b) => pair_text(
            "Dir contents"@,
            first_path,
            names_text(a),
            second_path,
            names_text(b),
        ),
    }
}

/// The description of a comparison: nothing when equal, else where the
/// mismatch is, if known, and what it is.
pub open spec fn comparison_text(c: ComparisonView) -> Seq<char> {
    match c {
        ComparisonView::Equal => Seq::<char>::empty(),
        ComparisonView::Unequal { diff, first, second, path } => "Mismatch"@ + match path {
            Some(p) => " in \""@ + lossy_text(p) + "\""@,
            None => Seq::<char>::empty(),
        } + ": "@ + diff_text(diff, lossy_text(first), lossy_text(second)),
    }
}

/// Appends a content difference: the block number `lba`, then the block
/// `first` from `first_path` and the block `second` from `second_path`.
pub fn format_diff_contents(
    out: &mut String,
    lba: u64,
    first_path: &str,
    first: &[u8],
    second_path: &str,
    second: &[u8],
)
    ensures
        final(out)@ == old(out)@ + contents_text(lba, first_path@, first@, second_path@, second@),
{
    let ghost before = out@;
    out.append("Block ");
    push_radix(out, lba, 10);
    out.append("\nFrom \"");
    out.append(first_path);
    out.append("\":\n");
    format_block(out, first);
    out.append("\nFrom \"");
    out.append(second_path);
    out.append("\":\n");
    format_block(out, second);
    assert(out@ =~= before + contents_text(lba, first_path@, first@, second_path@, second@));
}

/// Appends `"\nFrom \"path\": "`.
fn push_from(out: &mut String, path: &str)
    ensures
        final(out)@ == old(out)@ + from_text(path@),
{
    let ghost before = out@;
    out.append("\nFrom \"");
    out.append(path);
    out.append("\": ");
    assert(out@ =~= before + from_text(path@));
}

/// Appends the text of the bytes `b`, in double quotes.
fn push_quoted_lossy(out: &mut String, b: &[u8])
    ensures
        final(out)@ == old(out)@ + quoted(lossy_text(b@)),
{
    let ghost before = out@;
    out.append("\"");
    let text = lossy(b);
    out.append(text.as_str());
    out.append("\"");
    assert(out@ =~= before + quoted(lossy_text(b@)));
}

/// Appends a path that may be absent.
fn push_opt_path(out: &mut String, o: &Option<Vec<u8>>)
    ensures
        final(out)@ == old(out)@ + opt_path_text(opt_bytes(*o)),
{
    match o {
        Some(p) => push_quoted_lossy(out, p.as_slice()),
        None => out.append("-"),
    }
}

/// Appends a set of names in braces, one to a line.
fn push_names(out: &mut String, names: &[Vec<u8>])
    ensures
        final(out)@ == old(out)@ + names_text(names_view(names@)),
{
    let ghost before = out@;
    let ghost all = names_view(names@);
    if names.len() == 0 {
        out.append("{}");
        return;
    }
    out.append("{\n");
    let ghost opened = out@;
    let mut i: usize = 0;
    while i < names.len()
        invariant
            i <= names@.len(),
            all == names_view(names@),
            out@ == opened + name_lines(all, i as int),
        decreases names@.len() - i,
    {
        let ghost start = out@;
        out.append("    ");
        push_quoted_lossy(out, names[i].as_slice());
        out.append(",\n");
        assert(all[i as int] == names@[i as int]@);
        assert(out@ =~= opened + name_lines(all, i + 1));
        i += 1;
    }
    out.append("}");
    assert(out@ =~= before + names_text(all));
}

/// Appends a titled pair of numbers in base `base`.
fn push_number_pair(out: &mut String, title: &str, first_path: &str, second_path: &str, a: u64, b: u64, base: u64)
    requires
        2 <= base <= 16,
    ensures
        final(out)@ == old(out)@ + pair_text(
            title@,
            first_path@,
            radix_text(a as nat, base as nat),
            second_path@,
            radix_text(b as nat, base as nat),
        ),
{
    let ghost before = out@;
    out.append(title);
    push_from(out, first_path);
    push_radix(out, a, base);
    push_from(out, second_path);
    push_radix(out, b, base);
    assert(out@ =~= before + pair_text(
        title@,
        first_path@,
        radix_text(a as nat, base as nat),
        second_path@,
        radix_text(b as nat, base as nat),
    ));
}

/// Appends the description of `diff` between the roots `first_path` and
/// `second_path`.
pub fn format_diff(out: &mut String, diff: &Diff, first_path: &str, second_path: &str)
    ensures
        final(out)@ == old(out)@ + diff_text(diff@, first_path@, second_path@),
{
    let ghost before = out@;
    match diff {
        Diff::Modes(a, b) => {
            out.append("File mode");
            push_from(out, first_path);
            out.append("0o");
            push_radix(out, *a as u64, 8);
            push_from(out, second_path);
            out.append("0o");
            push_radix(out, *b as u64, 8);
        },
        Diff::Nlinks(a, b) => push_number_pair(out, "Hard links number", first_path, second_path, *a, *b, 10),
        Diff::Uids(a, b) => push_number_pair(out, "UID", first_path, second_path, *a as u64, *b as u64, 10),
        Diff::Gids(a, b) => push_number_pair(out, "GID", first_path, second_path, *a as u64, *b as u64, 10),
        Diff::Inodes(a, b) => {
            out.append("Inodes");
            push_from(out, first_path);
            push_opt_path(out, a);
            push_from(out, second_path);
            push_opt_path(out, b);
        },
        Diff::Sizes(a, b) => push_number_pair(out, "Size", first_path, second_path, *a, *b, 10),
        Diff::Contents(lba, a, b) => format_diff_contents(
            out,
            *lba,
            first_path,
            a.as_slice(),
            second_path,
            b.as_slice(),
        ),
        Diff::DeviceTypes(a, b) => push_number_pair(out, "Device type", first_path, second_path, *a, *b, 10),
        Diff::LinkTarget(a, b) => {
            out.append("Link target");
            push_from(out, first_path);
            push_quoted_lossy(out, a.as_slice());
            push_from(out, second_path);
            push_quoted_lossy(out, b.as_slice());
        },
        Diff::DirContents(a, b) => {
            out.append("Dir contents");
            push_from(out, first_path);
            push_names(out, a.as_slice());
            push_from(out, second_path);
            push_names(out, b.as_slice());
        },
    }
    assert(out@ =~= before + diff_text(diff@, first_path@, second_path@));
}

impl Comparison {
    /// The description of the comparison: empty when equal, else where the
    /// mismatch is, if known, and what it is.
    pub fn to_string(&self) -> (r: String)
        ensures
            r@ == comparison_text(self@),
    {
        let mut out = String::new();
        match self {
            Comparison::Equal => {},
            Comparison::Unequal { diff, first, second, path } => {
                out.append("Mismatch");
                if let Some(path) = path {
                    out.append(" in \"");
                    let text = lossy(path.as_slice());
                    out.append(text.as_str());
                    out.append("\"");
                }
                out.append(": ");
                let first_text = lossy(first.as_slice());
                let second_text = lossy(second.as_slice());
                format_diff(&mut out, diff, first_text.as_str(), second_text.as_str());
            },
        }
        assert(out@ =~= comparison_text(self@));
        out
    }
}

} // verus!
