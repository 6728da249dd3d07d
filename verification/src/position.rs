//! Bidirectional translation between editor coordinates (line, UTF-16 column)
//! and byte offsets into a source buffer's UTF-8 encoding.
//!
//! The model works in character-index space: for a buffer `s: Seq<char>`, the
//! char index `ci` sits at byte offset [`byte_pos`]`(s, ci)` of the UTF-8
//! encoding and at code-unit offset [`utf16_pos`]`(s, ci)` of the UTF-16
//! encoding. Lines are separated by `'\n'`; [`nl_before`] counts separators
//! before an index, which is also the 0-based line that the index lies on.
use vstd::prelude::*;
use vstd::string::*;
use vstd::utf8::*;

verus! {

/// Number of bytes in the UTF-8 encoding of one character.
pub open spec fn char_utf8_len(c: char) -> int {
    let u = c as u32;
    if u < 0x80 {
        1
    } else if u < 0x800 {
        2
    } else if u < 0x10000 {
        3
    } else {
        4
    }
}

/// Number of UTF-16 code units of one character (2 for supplementary-plane
/// characters, which editors count as two columns).
pub open spec fn char_utf16_len(c: char) -> int {
    if (c as u32) < 0x10000 {
        1
    } else {
        2
    }
}

/// Byte offset of the character at index `ci` in the UTF-8 encoding of `s`.
pub open spec fn byte_pos(s: Seq<char>, ci: int) -> int
    decreases ci,
{
    if ci <= 0 {
        0
    } else {
        byte_pos(s, ci - 1) + char_utf8_len(s[ci - 1])
    }
}

/// Code-unit offset of the character at index `ci` in the UTF-16 encoding of `s`.
pub open spec fn utf16_pos(s: Seq<char>, ci: int) -> int
    decreases ci,
{
    if ci <= 0 {
        0
    } else {
        utf16_pos(s, ci - 1) + char_utf16_len(s[ci - 1])
    }
}

/// Number of `'\n'` characters strictly before index `ci`; equivalently, the
/// 0-based line on which the character at `ci` lies.
pub open spec fn nl_before(s: Seq<char>, ci: int) -> int
    decreases ci,
{
    if ci <= 0 {
        0
    } else {
        nl_before(s, ci - 1) + if s[ci - 1] == '\n' {
            1int
        } else {
            0int
        }
    }
}

/// Number of lines of the buffer (one more than the number of separators).
pub open spec fn line_count(s: Seq<char>) -> int {
    nl_before(s, s.len() as int) + 1
}

/// True when char index `ci` is the first index of a line.
pub open spec fn is_line_start(s: Seq<char>, ci: int) -> bool {
    &&& 0 <= ci <= s.len()
    &&& (ci == 0 || s[ci - 1] == '\n')
}

/// The char index at which line `line` (0-based) starts; meaningful when
/// `line < line_count(s)`, where it is uniquely determined.
pub open spec fn line_start_of(s: Seq<char>, line: int) -> int {
    choose|ci: int| is_line_start(s, ci) && nl_before(s, ci) == line
}

/// True when `b` is the byte offset of some char index of `s` (a character
/// boundary of the UTF-8 encoding, the end of the buffer included).
pub open spec fn has_boundary(s: Seq<char>, b: int) -> bool {
    exists|ci: int| 0 <= ci <= s.len() && byte_pos(s, ci) == b
}

/// The char index whose byte offset is `b`; meaningful when
/// `has_boundary(s, b)`, where it is uniquely determined.
pub open spec fn char_at_byte(s: Seq<char>, b: int) -> int {
    choose|ci: int| 0 <= ci <= s.len() && byte_pos(s, ci) == b
}

/// True when `u` is the UTF-16 offset of some char index of `s`.
pub open spec fn has_utf16_boundary(s: Seq<char>, u: int) -> bool {
    exists|ci: int| 0 <= ci <= s.len() && utf16_pos(s, ci) == u
}

/// The char index whose UTF-16 offset is `u`; meaningful when
/// `has_utf16_boundary(s, u)`, where it is uniquely determined.
pub open spec fn char_at_utf16(s: Seq<char>, u: int) -> int {
    choose|ci: int| 0 <= ci <= s.len() && utf16_pos(s, ci) == u
}

/// Byte offsets grow by at least one per character and never shrink.
pub proof fn lemma_byte_pos_mono(s: Seq<char>, i: int, j: int)
    requires
        0 <= i <= j,
    ensures
        byte_pos(s, i) + (j - i) <= byte_pos(s, j),
    decreases j - i,
{
    if i < j {
        lemma_byte_pos_mono(s, i, j - 1);
    }
}

/// UTF-16 offsets grow by at least one per character and never shrink.
pub proof fn lemma_utf16_pos_mono(s: Seq<char>, i: int, j: int)
    requires
        0 <= i <= j,
    ensures
        utf16_pos(s, i) + (j - i) <= utf16_pos(s, j),
    decreases j - i,
{
    if i < j {
        lemma_utf16_pos_mono(s, i, j - 1);
    }
}

/// Separator counts never shrink and grow by at most one per character.
pub proof fn lemma_nl_mono(s: Seq<char>, i: int, j: int)
    requires
        0 <= i <= j,
    ensures
        nl_before(s, i) <= nl_before(s, j) <= nl_before(s, i) + (j - i),
    decreases j - i,
{
    if i < j {
        lemma_nl_mono(s, i, j - 1);
    }
}

/// A character takes no more UTF-16 code units than UTF-8 bytes.
pub proof fn lemma_utf16_le_byte(s: Seq<char>, i: int)
    requires
        0 <= i,
    ensures
        utf16_pos(s, i) <= byte_pos(s, i),
    decreases i,
{
    if i > 0 {
        lemma_utf16_le_byte(s, i - 1);
    }
}

/// Two line starts on the same line are the same index.
pub proof fn lemma_line_start_unique(s: Seq<char>, a: int, b: int)
    requires
        is_line_start(s, a),
        is_line_start(s, b),
        nl_before(s, a) == nl_before(s, b),
    ensures
        a == b,
{
    if a < b {
        lemma_nl_mono(s, a, b - 1);
        assert(nl_before(s, b) == nl_before(s, b - 1) + 1);
    } else if b < a {
        lemma_nl_mono(s, b, a - 1);
        assert(nl_before(s, a) == nl_before(s, a - 1) + 1);
    }
}

/// Two char indices with the same byte offset are the same index.
pub proof fn lemma_boundary_unique(s: Seq<char>, a: int, b: int)
    requires
        0 <= a <= s.len(),
        0 <= b <= s.len(),
        byte_pos(s, a) == byte_pos(s, b),
    ensures
        a == b,
{
    if a < b {
        lemma_byte_pos_mono(s, a, b);
    } else if b < a {
        lemma_byte_pos_mono(s, b, a);
    }
}

/// Two char indices with the same UTF-16 offset are the same index.
pub proof fn lemma_utf16_boundary_unique(s: Seq<char>, a: int, b: int)
    requires
        0 <= a <= s.len(),
        0 <= b <= s.len(),
        utf16_pos(s, a) == utf16_pos(s, b),
    ensures
        a == b,
{
    if a < b {
        lemma_utf16_pos_mono(s, a, b);
    } else if b < a {
        lemma_utf16_pos_mono(s, b, a);
    }
}

/// Every char index lies on a line that has a start at or before it.
pub proof fn lemma_line_start_exists(s: Seq<char>, ci: int)
    requires
        0 <= ci <= s.len(),
    ensures
        exists|ls: int|
            is_line_start(s, ls) && ls <= ci && nl_before(s, ls) == nl_before(s, ci),
    decreases ci,
{
    if is_line_start(s, ci) {
        assert(is_line_start(s, ci) && ci <= ci && nl_before(s, ci) == nl_before(s, ci));
    } else {
        lemma_line_start_exists(s, ci - 1);
    }
}

/// The UTF-8 encoding of one character has exactly `char_utf8_len` bytes.
pub proof fn lemma_encode_scalar_len(c: char)
    ensures
        encode_scalar(c as u32).len() == char_utf8_len(c),
{
    char_is_scalar(c);
}

/// Appending a character appends its encoding.
pub proof fn lemma_encode_push(t: Seq<char>, c: char)
    ensures
        encode_utf8(t.push(c)) == encode_utf8(t) + encode_scalar(c as u32),
    decreases t.len(),
{
    if t.len() == 0 {
        assert(t.push(c).drop_first() =~= t);
        assert(t.push(c)[0] == c);
        assert(encode_utf8(t) + encode_scalar(c as u32) =~= encode_scalar(c as u32));
    } else {
        lemma_encode_push(t.drop_first(), c);
        assert(t.push(c).drop_first() =~= t.drop_first().push(c));
        assert(t.push(c)[0] == t[0]);
        assert(encode_utf8(t) + encode_scalar(c as u32) =~= encode_scalar(t[0] as u32)
            + (encode_utf8(t.drop_first()) + encode_scalar(c as u32)));
    }
}

/// `byte_pos` measures prefixes of the buffer's UTF-8 encoding.
pub proof fn lemma_byte_pos_encode(s: Seq<char>, ci: int)
    requires
        0 <= ci <= s.len(),
    ensures
        byte_pos(s, ci) == encode_utf8(s.take(ci)).len(),
    decreases ci,
{
    if ci == 0 {
        assert(s.take(0) =~= Seq::<char>::empty());
    } else {
        lemma_byte_pos_encode(s, ci - 1);
        assert(s.take(ci) =~= s.take(ci - 1).push(s[ci - 1]));
        lemma_encode_push(s.take(ci - 1), s[ci - 1]);
        lemma_encode_scalar_len(s[ci - 1]);
    }
}

/// The byte offset of the end of the buffer is the length of its UTF-8 encoding.
pub proof fn lemma_byte_pos_total(s: Seq<char>)
    ensures
        byte_pos(s, s.len() as int) == encode_utf8(s).len(),
{
    lemma_byte_pos_encode(s, s.len() as int);
    assert(s.take(s.len() as int) =~= s);
}

/// Executable byte length of one character's UTF-8 encoding.
pub fn char_utf8_len_exec(c: char) -> (r: usize)
    ensures
        r == char_utf8_len(c),
{
    let u = c as u32;
    if u < 0x80 {
        1
    } else if u < 0x800 {
        2
    } else if u < 0x10000 {
        3
    } else {
        4
    }
}

/// Executable UTF-16 length of one character.
pub fn char_utf16_len_exec(c: char) -> (r: usize)
    ensures
        r == char_utf16_len(c),
{
    if (c as u32) < 0x10000 {
        1
    } else {
        2
    }
}

/// Byte offset of the start of the given 0-based line, or `None` when the
/// buffer has fewer lines.
pub fn line_to_byte(text: &str, line: usize) -> (r: Option<usize>)
    ensures
        (r is Some) <==> (line as int) < line_count(text@),
        r matches Some(b) ==> {
            let ls = line_start_of(text@, line as int);
            &&& is_line_start(text@, ls)
            &&& nl_before(text@, ls) == line
            &&& b == byte_pos(text@, ls)
        },
{
    let ghost s = text@;
    let n: usize = text.unicode_len();
    let total: usize = text.as_bytes_vec().len();
    proof {
        lemma_byte_pos_total(s);
    }
    if line == 0 {
        proof {
            assert(is_line_start(s, 0) && nl_before(s, 0) == 0);
            lemma_line_start_unique(s, 0, line_start_of(s, 0));
            lemma_nl_mono(s, 0, s.len() as int);
        }
        return Some(0);
    }
    let mut ci: usize = 0;
    let mut b: usize = 0;
    let mut nl: usize = 0;
    while ci < n
        invariant
            n == s.len(),
            s == text@,
            0 <= ci <= n,
            b == byte_pos(s, ci as int),
            nl == nl_before(s, ci as int),
            nl < line,
            byte_pos(s, n as int) == total,
        decreases n - ci,
    {
        let c = text.get_char(ci);
        let clen = char_utf8_len_exec(c);
        proof {
            lemma_byte_pos_mono(s, ci + 1, n as int);
        }
        b = b + clen;
        ci = ci + 1;
        if c == '\n' {
            nl = nl + 1;
            if nl == line {
                proof {
                    assert(is_line_start(s, ci as int) && nl_before(s, ci as int) == line);
                    lemma_line_start_unique(s, ci as int, line_start_of(s, line as int));
                    lemma_nl_mono(s, ci as int, s.len() as int);
                }
                return Some(b);
            }
        }
    }
    proof {
        assert(nl_before(s, s.len() as int) < line);
    }
    None
}

/// UTF-16 offset of the character starting at byte offset `byte`, or `None`
/// when `byte` is not a character boundary of the buffer.
pub fn byte_to_utf16(text: &str, byte: usize) -> (r: Option<usize>)
    ensures
        (r is Some) <==> has_boundary(text@, byte as int),
        r matches Some(u) ==> u == utf16_pos(text@, char_at_byte(text@, byte as int)),
{
    let ghost s = text@;
    let n: usize = text.unicode_len();
    let total: usize = text.as_bytes_vec().len();
    proof {
        lemma_byte_pos_total(s);
    }
    let mut ci: usize = 0;
    let mut b: usize = 0;
    let mut u: usize = 0;
    while ci < n && b < byte
        invariant
            n == s.len(),
            s == text@,
            0 <= ci <= n,
            b == byte_pos(s, ci as int),
            u == utf16_pos(s, ci as int),
            byte_pos(s, n as int) == total,
            forall|cj: int| 0 <= cj < ci ==> byte_pos(s, cj) < byte,
        decreases n - ci,
    {
        let c = text.get_char(ci);
        proof {
            lemma_byte_pos_mono(s, ci + 1, n as int);
            lemma_utf16_le_byte(s, ci + 1);
        }
        b = b + char_utf8_len_exec(c);
        u = u + char_utf16_len_exec(c);
        ci = ci + 1;
    }
    if b == byte {
        proof {
            assert(0 <= ci as int <= s.len() && byte_pos(s, ci as int) == byte);
            lemma_boundary_unique(s, ci as int, char_at_byte(s, byte as int));
        }
        Some(u)
    } else {
        proof {
            if b < byte {
                assert forall|cj: int| 0 <= cj <= s.len() implies byte_pos(s, cj) != byte by {
                    lemma_byte_pos_mono(s, cj, n as int);
                }
            } else {
                assert forall|cj: int| 0 <= cj <= s.len() implies byte_pos(s, cj) != byte by {
                    if cj >= ci {
                        lemma_byte_pos_mono(s, ci as int, cj);
                    }
                }
            }
        }
        None
    }
}

/// Byte offset of the character at UTF-16 offset `target`, or `None` when
/// `target` does not fall on a character boundary (for instance inside a
/// surrogate pair).
pub fn utf16_to_byte(text: &str, target: usize) -> (r: Option<usize>)
    ensures
        (r is Some) <==> has_utf16_boundary(text@, target as int),
        r matches Some(b) ==> b == byte_pos(text@, char_at_utf16(text@, target as int)),
{
    let ghost s = text@;
    let n: usize = text.unicode_len();
    let total: usize = text.as_bytes_vec().len();
    proof {
        lemma_byte_pos_total(s);
    }
    let mut ci: usize = 0;
    let mut b: usize = 0;
    let mut u: usize = 0;
    while ci < n && u < target
        invariant
            n == s.len(),
            s == text@,
            0 <= ci <= n,
            b == byte_pos(s, ci as int),
            u == utf16_pos(s, ci as int),
            byte_pos(s, n as int) == total,
            forall|cj: int| 0 <= cj < ci ==> utf16_pos(s, cj) < target,
        decreases n - ci,
    {
        let c = text.get_char(ci);
        proof {
            lemma_byte_pos_mono(s, ci + 1, n as int);
            lemma_utf16_le_byte(s, ci + 1);
        }
        b = b + char_utf8_len_exec(c);
        u = u + char_utf16_len_exec(c);
        ci = ci + 1;
    }
    if u == target {
        proof {
            assert(0 <= ci as int <= s.len() && utf16_pos(s, ci as int) == target);
            lemma_utf16_boundary_unique(s, ci as int, char_at_utf16(s, target as int));
        }
        Some(b)
    } else {
        proof {
            if u < target {
                assert forall|cj: int| 0 <= cj <= s.len() implies utf16_pos(s, cj) != target by {
                    lemma_utf16_pos_mono(s, cj, n as int);
                }
            } else {
                assert forall|cj: int| 0 <= cj <= s.len() implies utf16_pos(s, cj) != target by {
                    if cj >= ci {
                        lemma_utf16_pos_mono(s, ci as int, cj);
                    }
                }
            }
        }
        None
    }
}

/// 0-based line containing the character that starts at byte offset `byte`,
/// or `None` when `byte` is not a character boundary.
pub fn byte_to_line(text: &str, byte: usize) -> (r: Option<usize>)
    ensures
        (r is Some) <==> has_boundary(text@, byte as int),
        r matches Some(l) ==> l == nl_before(text@, char_at_byte(text@, byte as int)),
{
    let ghost s = text@;
    let n: usize = text.unicode_len();
    let total: usize = text.as_bytes_vec().len();
    proof {
        lemma_byte_pos_total(s);
    }
    let mut ci: usize = 0;
    let mut b: usize = 0;
    let mut nl: usize = 0;
    while ci < n && b < byte
        invariant
            n == s.len(),
            s == text@,
            0 <= ci <= n,
            b == byte_pos(s, ci as int),
            nl == nl_before(s, ci as int),
            byte_pos(s, n as int) == total,
            forall|cj: int| 0 <= cj < ci ==> byte_pos(s, cj) < byte,
        decreases n - ci,
    {
        let c = text.get_char(ci);
        proof {
            lemma_byte_pos_mono(s, ci + 1, n as int);
            lemma_nl_mono(s, 0, ci + 1);
        }
        b = b + char_utf8_len_exec(c);
        if c == '\n' {
            nl = nl + 1;
        }
        ci = ci + 1;
    }
    if b == byte {
        proof {
            assert(0 <= ci as int <= s.len() && byte_pos(s, ci as int) == byte);
            lemma_boundary_unique(s, ci as int, char_at_byte(s, byte as int));
        }
        Some(nl)
    } else {
        proof {
            if b < byte {
                assert forall|cj: int| 0 <= cj <= s.len() implies byte_pos(s, cj) != byte by {
                    lemma_byte_pos_mono(s, cj, n as int);
                }
            } else {
                assert forall|cj: int| 0 <= cj <= s.len() implies byte_pos(s, cj) != byte by {
                    if cj >= ci {
                        lemma_byte_pos_mono(s, ci as int, cj);
                    }
                }
            }
        }
        None
    }
}

/// UTF-16 column (0-based, within the line found by [`byte_to_line`]) of the
/// character that starts at byte offset `byte`, or `None` when `byte` is not
/// a character boundary.
pub fn byte_to_column(text: &str, byte: usize) -> (r: Option<usize>)
    ensures
        (r is Some) <==> has_boundary(text@, byte as int),
        r matches Some(col) ==> {
            let ci = char_at_byte(text@, byte as int);
            let ls = line_start_of(text@, nl_before(text@, ci));
            col == utf16_pos(text@, ci) - utf16_pos(text@, ls)
        },
{
    let ghost s = text@;
    let n: usize = text.unicode_len();
    let total: usize = text.as_bytes_vec().len();
    proof {
        lemma_byte_pos_total(s);
    }
    let mut ci: usize = 0;
    let mut b: usize = 0;
    let mut u: usize = 0;
    let mut u_ls: usize = 0;
    let ghost mut ls_idx: int = 0;
    while ci < n && b < byte
        invariant
            n == s.len(),
            s == text@,
            0 <= ci <= n,
            b == byte_pos(s, ci as int),
            u == utf16_pos(s, ci as int),
            byte_pos(s, n as int) == total,
            is_line_start(s, ls_idx),
            ls_idx <= ci,
            nl_before(s, ls_idx) == nl_before(s, ci as int),
            u_ls == utf16_pos(s, ls_idx),
            forall|cj: int| 0 <= cj < ci ==> byte_pos(s, cj) < byte,
        decreases n - ci,
    {
        let c = text.get_char(ci);
        proof {
            lemma_byte_pos_mono(s, ci + 1, n as int);
            lemma_utf16_le_byte(s, ci + 1);
        }
        b = b + char_utf8_len_exec(c);
        u = u + char_utf16_len_exec(c);
        ci = ci + 1;
        if c == '\n' {
            u_ls = u;
            proof {
                ls_idx = ci as int;
            }
        }
    }
    if b == byte {
        proof {
            assert(0 <= ci as int <= s.len() && byte_pos(s, ci as int) == byte);
            lemma_boundary_unique(s, ci as int, char_at_byte(s, byte as int));
            assert(is_line_start(s, ls_idx) && nl_before(s, ls_idx) == nl_before(s, ci as int));
            lemma_line_start_unique(s, ls_idx, line_start_of(s, nl_before(s, ci as int)));
            lemma_utf16_pos_mono(s, ls_idx, ci as int);
        }
        Some(u - u_ls)
    } else {
        proof {
            if b < byte {
                assert forall|cj: int| 0 <= cj <= s.len() implies byte_pos(s, cj) != byte by {
                    lemma_byte_pos_mono(s, cj, n as int);
                }
            } else {
                assert forall|cj: int| 0 <= cj <= s.len() implies byte_pos(s, cj) != byte by {
                    if cj >= ci {
                        lemma_byte_pos_mono(s, ci as int, cj);
                    }
                }
            }
        }
        None
    }
}

/// Char index of the character that starts at byte offset `byte`, or `None`
/// when `byte` is not a character boundary.
pub fn byte_to_char_index(text: &str, byte: usize) -> (r: Option<usize>)
    ensures
        (r is Some) <==> has_boundary(text@, byte as int),
        r matches Some(ci) ==> ci == char_at_byte(text@, byte as int),
{
    let ghost s = text@;
    let n: usize = text.unicode_len();
    let total: usize = text.as_bytes_vec().len();
    proof {
        lemma_byte_pos_total(s);
    }
    let mut ci: usize = 0;
    let mut b: usize = 0;
    while ci < n && b < byte
        invariant
            n == s.len(),
            s == text@,
            0 <= ci <= n,
            b == byte_pos(s, ci as int),
            byte_pos(s, n as int) == total,
            forall|cj: int| 0 <= cj < ci ==> byte_pos(s, cj) < byte,
        decreases n - ci,
    {
        let c = text.get_char(ci);
        proof {
            lemma_byte_pos_mono(s, ci + 1, n as int);
        }
        b = b + char_utf8_len_exec(c);
        ci = ci + 1;
    }
    if b == byte {
        proof {
            assert(0 <= ci as int <= s.len() && byte_pos(s, ci as int) == byte);
            lemma_boundary_unique(s, ci as int, char_at_byte(s, byte as int));
        }
        Some(ci)
    } else {
        proof {
            if b < byte {
                assert forall|cj: int| 0 <= cj <= s.len() implies byte_pos(s, cj) != byte by {
                    lemma_byte_pos_mono(s, cj, n as int);
                }
            } else {
                assert forall|cj: int| 0 <= cj <= s.len() implies byte_pos(s, cj) != byte by {
                    if cj >= ci {
                        lemma_byte_pos_mono(s, ci as int, cj);
                    }
                }
            }
        }
        None
    }
}

/// Total number of UTF-16 code units of the buffer.
pub fn utf16_total(text: &str) -> (r: usize)
    ensures
        r == utf16_pos(text@, text@.len() as int),
{
    let ghost s = text@;
    let n: usize = text.unicode_len();
    let total: usize = text.as_bytes_vec().len();
    proof {
        lemma_byte_pos_total(s);
    }
    let mut ci: usize = 0;
    let mut u: usize = 0;
    while ci < n
        invariant
            n == s.len(),
            s == text@,
            0 <= ci <= n,
            u == utf16_pos(s, ci as int),
            byte_pos(s, n as int) == total,
        decreases n - ci,
    {
        let c = text.get_char(ci);
        proof {
            lemma_byte_pos_mono(s, ci + 1, n as int);
            lemma_utf16_le_byte(s, ci + 1);
        }
        u = u + char_utf16_len_exec(c);
        ci = ci + 1;
    }
    u
}

/// The editor coordinate (0-based line, UTF-16 column) of byte offset `b`,
/// when `b` is a character boundary.
pub open spec fn offset_to_coordinate(s: Seq<char>, b: int) -> Option<(int, int)> {
    if has_boundary(s, b) {
        let ci = char_at_byte(s, b);
        let l = nl_before(s, ci);
        Some((l, utf16_pos(s, ci) - utf16_pos(s, line_start_of(s, l))))
    } else {
        None
    }
}

/// The byte offset addressed by the editor coordinate (0-based line `line`,
/// UTF-16 column `col`): the UTF-16 offset of the line start plus `col`,
/// mapped back to byte space when it falls on a character boundary.
pub open spec fn coordinate_to_offset(s: Seq<char>, line: int, col: int) -> Option<int> {
    if line < line_count(s) {
        let u = utf16_pos(s, line_start_of(s, line)) + col;
        if has_utf16_boundary(s, u) {
            Some(byte_pos(s, char_at_utf16(s, u)))
        } else {
            None
        }
    } else {
        None
    }
}

/// Round trip: translating any character-boundary byte offset of any buffer
/// to an editor coordinate and back yields the same offset.
pub proof fn lemma_coordinate_round_trip(s: Seq<char>, b: int)
    requires
        has_boundary(s, b),
    ensures
        offset_to_coordinate(s, b) is Some,
        offset_to_coordinate(s, b) matches Some(lc) ==> coordinate_to_offset(s, lc.0, lc.1)
            == Some(b),
{
    let ci = char_at_byte(s, b);
    assert(0 <= ci <= s.len() && byte_pos(s, ci) == b);
    let l = nl_before(s, ci);
    lemma_line_start_exists(s, ci);
    let ls0 = choose|ls: int|
        is_line_start(s, ls) && ls <= ci && nl_before(s, ls) == nl_before(s, ci);
    assert(is_line_start(s, ls0) && nl_before(s, ls0) == l);
    let ls = line_start_of(s, l);
    assert(is_line_start(s, ls) && nl_before(s, ls) == l);
    lemma_line_start_unique(s, ls, ls0);
    lemma_utf16_pos_mono(s, ls, ci);
    let col = utf16_pos(s, ci) - utf16_pos(s, ls);
    lemma_nl_mono(s, ci, s.len() as int);
    assert(l < line_count(s));
    assert(utf16_pos(s, ls) + col == utf16_pos(s, ci));
    assert(0 <= ci <= s.len() && utf16_pos(s, ci) == utf16_pos(s, ci));
    assert(has_utf16_boundary(s, utf16_pos(s, ci)));
    lemma_utf16_boundary_unique(s, ci, char_at_utf16(s, utf16_pos(s, ci)));
}

} // verus!
