//! Limits, and the escaping that keeps help text from breaking the markdown
//! of a guide.
use vstd::prelude::*;

use crate::text::{chars_to_string, contains, has_infix, starts_with, str_chars};

verus! {

/// Maximum subcommand recursion depth to prevent denial-of-service.
pub const MAX_SUBCOMMAND_DEPTH: usize = 10;

/// Maximum total commands across all depth levels to prevent breadth-based OOM.
pub const MAX_TOTAL_COMMANDS: usize = 5000;

/// Maximum length for descriptions in generated output.
pub const MAX_DESCRIPTION_LENGTH: usize = 500;


/// What one character becomes in markdown: `|` escaped, a line feed made a
/// space, a carriage return dropped, a backtick made a quote.
pub open spec fn escape_char(c: char) -> Seq<char> {
    if c == '|' {
        seq!['\\', '|']
    } else if c == '\n' {
        seq![' ']
    } else if c == '\r' {
        seq![]
    } else if c == '`' {
        seq!['\'']
    } else {
        seq![c]
    }
}

/// The text made safe for markdown tables and inline code, character by
/// character.
pub open spec fn escape_md(s: Seq<char>) -> Seq<char>
    decreases s.len(),
{
    if s.len() == 0 {
        seq![]
    } else {
        escape_md(s.drop_last()) + escape_char(s.last())
    }
}

/// Escaped text holds no line break and no backtick, and each `|` in it
/// follows a backslash.
pub open spec fn is_md_safe(s: Seq<char>) -> bool {
    &&& forall|i: int| 0 <= i < s.len() ==> #[trigger] s[i] != '\n' && s[i] != '\r' && s[i] != '`'
    &&& forall|i: int| 0 <= i < s.len() && #[trigger] s[i] == '|' ==> i > 0 && s[i - 1] == '\\'
}

/// Escaping always gives text that is safe in markdown.
pub proof fn lemma_escape_md_safe(s: Seq<char>)
    ensures
        is_md_safe(escape_md(s)),
    decreases s.len(),
{
    if s.len() > 0 {
        lemma_escape_md_safe(s.drop_last());
        let a = escape_md(s.drop_last());
        let b = escape_char(s.last());
        let r = a + b;
        assert(r == escape_md(s));
        assert forall|i: int| 0 <= i < r.len() implies #[trigger] r[i] != '\n' && r[i] != '\r'
            && r[i] != '`' by {
            if i < a.len() {
                assert(r[i] == a[i]);
            } else {
                assert(r[i] == b[i - a.len()]);
            }
        }
        assert forall|i: int| 0 <= i < r.len() && #[trigger] r[i] == '|' implies i > 0 && r[i
            - 1] == '\\' by {
            if i < a.len() {
                assert(r[i] == a[i]);
                assert(r[i - 1] == a[i - 1]);
            } else {
                assert(r[i] == b[i - a.len()]);
                if i - 1 >= a.len() {
                    assert(r[i - 1] == b[i - 1 - a.len()]);
                }
            }
        }
    }
}

/// Escapes a string for safe inclusion in markdown tables and inline
/// contexts: pipes are escaped, line feeds become spaces, carriage returns
/// are dropped and backticks become quotes.
pub fn escape_markdown(s: &str) -> (r: std::string::String)
    ensures
        r@ == escape_md(s@),
        is_md_safe(r@),
{
    let c = str_chars(s);
    let e = escape_chars(&c);
    proof {
        lemma_escape_md_safe(s@);
    }
    chars_to_string(&e)
}

/// The escaped characters of `c`.
pub fn escape_chars(c: &Vec<char>) -> (r: Vec<char>)
    ensures
        r@ == escape_md(c@),
{
    let mut r: Vec<char> = Vec::new();
    let mut i: usize = 0;
    assert(c@.take(0) =~= seq![]);
    while i < c.len()
        invariant
            i <= c@.len(),
            r@ == escape_md(c@.take(i as int)),
        decreases c@.len() - i,
    {
        let ch = c[i];
        let ghost before = r@;
        assert(c@.take(i + 1).drop_last() =~= c@.take(i as int));
        if ch == '|' {
            r.push('\\');
            r.push('|');
        } else if ch == '\n' {
            r.push(' ');
        } else if ch == '\r' {
        } else if ch == '`' {
            r.push('\'');
        } else {
            r.push(ch);
        }
        assert(r@ =~= before + escape_char(ch));
        i += 1;
    }
    assert(c@.take(c@.len() as int) =~= c@);
    r
}

/// The number of bytes of `c` in UTF-8.
pub open spec fn utf8_width(c: char) -> nat {
    if (c as u32) < 0x80 {
        1
    } else if (c as u32) < 0x800 {
        2
    } else if (c as u32) < 0x10000 {
        3
    } else {
        4
    }
}

/// The number of bytes of `s` in UTF-8 (`str::len`).
pub open spec fn byte_len(s: Seq<char>) -> nat
    decreases s.len(),
{
    if s.len() == 0 {
        0
    } else {
        utf8_width(s[0]) + byte_len(s.drop_first())
    }
}

/// Byte lengths add up over a concatenation.
pub proof fn lemma_byte_len_concat(a: Seq<char>, b: Seq<char>)
    ensures
        byte_len(a + b) == byte_len(a) + byte_len(b),
    decreases a.len(),
{
    if a.len() > 0 {
        lemma_byte_len_concat(a.drop_first(), b);
        assert((a + b).drop_first() =~= a.drop_first() + b);
    } else {
        assert(a + b =~= b);
    }
}

/// The byte length of a prefix, one character longer.
pub proof fn lemma_byte_len_step(s: Seq<char>, k: int)
    requires
        0 <= k < s.len(),
    ensures
        byte_len(s.take(k + 1)) == byte_len(s.take(k)) + utf8_width(s[k]),
{
    let one = seq![s[k]];
    lemma_byte_len_concat(s.take(k), one);
    assert(s.take(k + 1) =~= s.take(k) + one);
    assert(one.drop_first() =~= Seq::<char>::empty());
    assert(byte_len(one.drop_first()) == 0);
    assert(byte_len(one) == utf8_width(s[k]));
}

/// A prefix has no more bytes than the whole.
pub proof fn lemma_byte_len_prefix(s: Seq<char>, k: int)
    requires
        0 <= k <= s.len(),
    ensures
        byte_len(s.take(k)) <= byte_len(s),
    decreases s.len() - k,
{
    if k < s.len() {
        lemma_byte_len_step(s, k);
        lemma_byte_len_prefix(s, k + 1);
    } else {
        assert(s.take(k) =~= s);
    }
}

/// The number of bytes of `c` in UTF-8.
pub fn char_width(c: char) -> (r: usize)
    ensures
        r == utf8_width(c),
        1 <= r <= 4,
{
    let v = c as u32;
    if v < 0x80 {
        1
    } else if v < 0x800 {
        2
    } else if v < 0x10000 {
        3
    } else {
        4
    }
}

/// Where a long text is cut: the last character whose first byte lies at
/// or before byte `t`, scanning from character `k`.
pub open spec fn cut_from(e: Seq<char>, t: nat, k: int) -> int
    decreases e.len() - k,
{
    if k < 0 || k + 1 >= e.len() {
        k
    } else if byte_len(e.take(k + 1)) <= t {
        cut_from(e, t, k + 1)
    } else {
        k
    }
}

/// The description, escaped, and cut to fit `max_len` bytes with `...` when
/// it is longer: the cut falls before the last character that starts within
/// the first `max_len - 3` bytes.
pub open spec fn safe_desc(desc: Seq<char>, max_len: nat) -> Seq<char> {
    let e = escape_md(desc);
    if byte_len(e) <= max_len {
        e
    } else {
        let t: nat = if max_len >= 3 {
            (max_len - 3) as nat
        } else {
            0
        };
        e.take(cut_from(e, t, 0)) + "..."@
    }
}

/// The cut point lies within the text and its prefix fits `t` bytes.
pub proof fn lemma_cut_from(e: Seq<char>, t: nat, k: int)
    requires
        0 <= k < e.len(),
        byte_len(e.take(k)) <= t,
    ensures
        k <= cut_from(e, t, k) < e.len(),
        byte_len(e.take(cut_from(e, t, k))) <= t,
    decreases e.len() - k,
{
    if k + 1 < e.len() && byte_len(e.take(k + 1)) <= t {
        lemma_cut_from(e, t, k + 1);
    }
}

/// A description made safe stays safe for markdown, cut or not.
pub proof fn lemma_safe_desc_md_safe(desc: Seq<char>, max_len: nat)
    ensures
        is_md_safe(safe_desc(desc, max_len)),
{
    let e = escape_md(desc);
    lemma_escape_md_safe(desc);
    if byte_len(e) > max_len {
        let t: nat = if max_len >= 3 {
            (max_len - 3) as nat
        } else {
            0
        };
        assert(e.len() > 0) by {
            if e.len() == 0 {
                assert(byte_len(e) == 0);
            }
        }
        assert(e.take(0) =~= Seq::<char>::empty());
        assert(byte_len(e.take(0)) == 0);
        lemma_cut_from(e, t, 0);
        let c = cut_from(e, t, 0);
        let d = "..."@;
        reveal_strlit("...");
        let h = e.take(c);
        let r = h + d;
        assert(r == safe_desc(desc, max_len));
        assert forall|i: int| 0 <= i < r.len() implies #[trigger] r[i] != '\n' && r[i] != '\r'
            && r[i] != '`' by {
            if i < h.len() {
                assert(r[i] == e[i]);
            } else {
                assert(r[i] == d[i - h.len()]);
            }
        }
        assert forall|i: int| 0 <= i < r.len() && #[trigger] r[i] == '|' implies i > 0 && r[i
            - 1] == '\\' by {
            if i < h.len() {
                assert(r[i] == e[i]);
                assert(r[i - 1] == e[i - 1]);
            } else {
                assert(r[i] == d[i - h.len()]);
            }
        }
    }
}

/// Truncates a description to a safe maximum length, after escaping it;
/// the cut respects character boundaries and adds `...`.
pub fn safe_description(desc: &str, max_len: usize) -> (r: std::string::String)
    ensures
        r@ == safe_desc(desc@, max_len as nat),
        is_md_safe(r@),
        max_len >= 3 ==> byte_len(r@) <= max_len,
        byte_len(escape_md(desc@)) > max_len ==> "..."@.is_suffix_of(r@),
{
    let c = str_chars(desc);
    let e = escape_chars(&c);
    proof {
        lemma_escape_md_safe(desc@);
        lemma_safe_desc_md_safe(desc@, max_len as nat);
    }
    let mut total: usize = 0;
    let mut i: usize = 0;
    let mut over = false;
    assert(e@.take(0) =~= seq![]);
    if e.len() == 0 {
        assert(e@.take(0) =~= e@);
    }
    while i < e.len()
        invariant_except_break
            !over,
        invariant
            i <= e@.len(),
            total == byte_len(e@.take(i as int)),
            total <= max_len,
            i == e@.len() ==> total == byte_len(e@),
        ensures
            over ==> byte_len(e@) > max_len,
            !over ==> byte_len(e@) == total,
        decreases e@.len() - i,
    {
        let w = char_width(e[i]);
        proof {
            lemma_byte_len_step(e@, i as int);
        }
        if w > max_len - total {
            over = true;
            proof {
                lemma_byte_len_prefix(e@, i + 1);
            }
            break;
        }
        total += w;
        i += 1;
        if i == e.len() {
            assert(e@.take(i as int) =~= e@);
        }
    }
    if e.len() == 0 {
        assert(e@.take(0) =~= e@);
    }
    if !over {
        return chars_to_string(&e);
    }
    let t: usize = if max_len >= 3 {
        max_len - 3
    } else {
        0
    };
    assert(e@.len() > 0) by {
        if e@.len() == 0 {
            assert(byte_len(e@) == 0);
        }
    }
    let mut k: usize = 0;
    let mut off: usize = 0;
    assert(e@.take(0) =~= seq![]);
    while k < e.len() - 1
        invariant
            k < e@.len(),
            off == byte_len(e@.take(k as int)),
            off <= t,
            cut_from(e@, t as nat, k as int) == cut_from(e@, t as nat, 0),
        ensures
            k as int == cut_from(e@, t as nat, 0),
            off == byte_len(e@.take(k as int)),
            off <= t,
        decreases e@.len() - k,
    {
        let w = char_width(e[k]);
        proof {
            lemma_byte_len_step(e@, k as int);
        }
        if w > t - off {
            break;
        }
        off += w;
        k += 1;
    }
    let mut out = slice_prefix(&e, k);
    let ghost head = out@;
    out.push('.');
    out.push('.');
    out.push('.');
    proof {
        reveal_strlit("...");
        assert(out@ =~= head + "..."@);
        lemma_byte_len_concat(head, "..."@);
        let d = "..."@;
        assert(d =~= seq!['.', '.', '.']);
        let one = d.drop_first().drop_first();
        assert(one =~= seq!['.']);
        assert(utf8_width('.') == 1);
        assert(one.drop_first() =~= Seq::<char>::empty());
        assert(byte_len(one.drop_first()) == 0);
        assert(byte_len(one) == utf8_width(one[0]) + byte_len(one.drop_first()));
        assert(byte_len(one) == 1);
        assert(byte_len(d.drop_first()) == 2);
        assert(byte_len(d) == 3);
    }
    chars_to_string(&out)
}

/// The first `k` characters of `e`.
fn slice_prefix(e: &Vec<char>, k: usize) -> (r: Vec<char>)
    requires
        k <= e@.len(),
    ensures
        r@ == e@.take(k as int),
{
    let r = crate::text::slice_chars(e, 0, k);
    assert(e@.subrange(0, k as int) =~= e@.take(k as int));
    r
}

/// The system directories no output may be written under.
pub open spec fn blocked_prefixes() -> Seq<Seq<char>> {
    seq!["/etc"@, "/dev"@, "/proc"@, "/sys"@, "/boot"@]
}

/// A path that begins with one of the system directories (compared as text).
pub open spec fn is_blocked_path(p: Seq<char>) -> bool {
    exists|k: int| 0 <= k < blocked_prefixes().len() && #[trigger] blocked_prefixes()[k].is_prefix_of(p)
}

/// Whether a resolved output path lies in a system directory.
pub fn is_system_path(resolved: &str) -> (r: bool)
    ensures
        r == is_blocked_path(resolved@),
{
    let c = str_chars(resolved);
    let ghost b = blocked_prefixes();
    assert(b[0] == "/etc"@ && b[1] == "/dev"@ && b[2] == "/proc"@ && b[3] == "/sys"@ && b[4]
        == "/boot"@);
    starts_with(&c, "/etc") || starts_with(&c, "/dev") || starts_with(&c, "/proc") || starts_with(
        &c,
        "/sys",
    ) || starts_with(&c, "/boot")
}

/// Whether an output path holds a `..` traversal.
pub fn has_traversal(path: &str) -> (r: bool)
    ensures
        r == has_infix(path@, ".."@),
{
    let c = str_chars(path);
    contains(&c, "..")
}

} // verus!
