//! Decoding of fetched package archives: gzip decompression through an
//! outside decoder, and a verified reader of tar-style archives.
//!
//! A tar archive is a run of 512-byte blocks: a header block naming one
//! entry (path, size as an octal field, a type flag), then the entry's data
//! rounded up to whole blocks, repeated until an all-zero block or the end
//! of the archive.
use vstd::prelude::*;
use vstd::utf8::{decode_utf8, valid_utf8};

verus! {

/// What decompressing the given gzip stream yields; a function of the bytes
/// alone.
pub uninterp spec fn gunzip_of(data: Seq<u8>) -> Seq<u8>;

/// Whether the given bytes decompress as a gzip stream at all; like the
/// output, a function of the bytes alone.
pub uninterp spec fn gunzip_ok(data: Seq<u8>) -> bool;

/// What decoding the given bytes as UTF-8 with lossy replacement yields; a
/// function of the bytes alone.
pub uninterp spec fn lossy_of(bytes: Seq<u8>) -> Seq<char>;

/// Relies on flate2's `GzDecoder` together with `std::io::Read::read_to_end`:
/// decompression is deterministic, so whether the bytes decode at all and
/// what they decode to both depend on the input alone.
#[verifier::external_body]
pub fn gunzip(data: &Vec<u8>) -> (r: Result<Vec<u8>, ()>)
    ensures
        (r is Ok) <==> gunzip_ok(data@),
        r matches Ok(out) ==> out@ == gunzip_of(data@),
{
    let mut decoder = flate2::read::GzDecoder::new(data.as_slice());
    let mut out = Vec::new();
    match std::io::Read::read_to_end(&mut decoder, &mut out) {
        Ok(_) => Ok(out),
        Err(_) => Err(()),
    }
}

/// Relies on `String::from_utf8`: it succeeds exactly on valid UTF-8 and
/// then decodes it.
#[verifier::external_body]
pub fn utf8_strict(bytes: Vec<u8>) -> (r: Option<String>)
    ensures
        (r is Some) <==> valid_utf8(bytes@),
        r matches Some(s) ==> s@ == decode_utf8(bytes@),
{
    match String::from_utf8(bytes) {
        Ok(s) => Some(s),
        Err(_) => None,
    }
}

/// Relies on `String::from_utf8_lossy`: the result depends on the bytes
/// alone, and valid UTF-8 is decoded exactly (invalid sequences are replaced,
/// which this library does not model further).
#[verifier::external_body]
pub fn utf8_lossy(bytes: &Vec<u8>) -> (r: String)
    ensures
        r@ == lossy_of(bytes@),
        valid_utf8(bytes@) ==> r@ == decode_utf8(bytes@),
{
    String::from_utf8_lossy(bytes.as_slice()).into_owned()
}

/// One archive entry of regular-file type: its path bytes and its contents.
pub ghost struct TarEntryView {
    pub path: Seq<u8>,
    pub data: Seq<u8>,
}

/// One archive entry as extracted.
#[derive(Debug)]
pub struct TarEntry {
    pub path: Vec<u8>,
    pub data: Vec<u8>,
}

impl View for TarEntry {
    type V = TarEntryView;

    open spec fn view(&self) -> TarEntryView {
        TarEntryView { path: self.path@, data: self.data@ }
    }
}

/// True for the ASCII digits `'0'` through `'7'`.
pub open spec fn is_octal_digit(b: u8) -> bool {
    0x30 <= b <= 0x37
}

/// First index at or after `k` whose byte is not a space.
pub open spec fn skip_spaces(s: Seq<u8>, k: int) -> int
    decreases s.len() - k,
    when 0 <= k <= s.len()
{
    if k >= s.len() {
        s.len() as int
    } else if s[k] == 0x20 {
        skip_spaces(s, k + 1)
    } else {
        k
    }
}

/// First index at or after `k` whose byte is not an octal digit.
pub open spec fn digits_end(s: Seq<u8>, k: int) -> int
    decreases s.len() - k,
    when 0 <= k <= s.len()
{
    if k >= s.len() {
        s.len() as int
    } else if is_octal_digit(s[k]) {
        digits_end(s, k + 1)
    } else {
        k
    }
}

/// Value of the octal digits at `[k, j)`.
pub open spec fn octal_val(s: Seq<u8>, k: int, j: int) -> int
    decreases j - k,
{
    if j <= k {
        0
    } else {
        octal_val(s, k, j - 1) * 8 + (s[j - 1] - 0x30)
    }
}

/// True when everything from `k` on is NUL or space (field padding).
pub open spec fn trailer_ok(s: Seq<u8>, k: int) -> bool {
    forall|i: int| k <= i < s.len() ==> s[i] == 0 || s[i] == 0x20
}

/// Parse of an octal header field: optional leading spaces, at least one
/// octal digit, then only NUL or space padding.
pub open spec fn parse_octal(s: Seq<u8>) -> Option<int> {
    let st = skip_spaces(s, 0);
    let en = digits_end(s, st);
    if en > st && trailer_ok(s, en) {
        Some(octal_val(s, st, en))
    } else {
        None
    }
}

/// First index at or after `k` (and before `s.len()`) holding NUL, or the
/// length when there is none.
pub open spec fn nul_pos(s: Seq<u8>, k: int) -> int
    decreases s.len() - k,
    when 0 <= k <= s.len()
{
    if k >= s.len() {
        s.len() as int
    } else if s[k] == 0 {
        k
    } else {
        nul_pos(s, k + 1)
    }
}

/// The NUL-terminated prefix of a header text field.
pub open spec fn cstr(s: Seq<u8>) -> Seq<u8> {
    s.take(nul_pos(s, 0))
}

/// True when the 512 bytes at `off` are all zero (the end-of-archive mark).
pub open spec fn block_zero(d: Seq<u8>, off: int) -> bool {
    forall|i: int| off <= i < off + 512 ==> d[i] == 0
}

/// The path of the entry whose header sits at `off`: the name field,
/// prefixed (with a slash) by the prefix field when one is present.
pub open spec fn entry_path(d: Seq<u8>, off: int) -> Seq<u8> {
    let name = cstr(d.subrange(off, off + 100));
    let prefix = cstr(d.subrange(off + 345, off + 500));
    if prefix.len() == 0 {
        name
    } else {
        prefix + seq![0x2fu8] + name
    }
}

/// True when the type flag marks a regular file.
pub open spec fn is_regular_flag(b: u8) -> bool {
    b == 0 || b == 0x30
}

/// The regular-file entries of the archive `d` from offset `off` on, in
/// order, or `None` when the archive is malformed there (a truncated block,
/// a truncated entry, or an unreadable size field). Iteration ends at the
/// end of the data or at an all-zero block; entries of other types are
/// skipped.
pub open spec fn tar_entries_from(d: Seq<u8>, off: int) -> Option<Seq<TarEntryView>>
    decreases d.len() - off,
    when 0 <= off <= d.len()
{
    if off == d.len() {
        Some(Seq::empty())
    } else if off + 512 > d.len() {
        None
    } else if block_zero(d, off) {
        Some(Seq::empty())
    } else {
        match parse_octal(d.subrange(off + 124, off + 136)) {
            None => None,
            Some(size) => {
                if size < 0 || off + 512 + size > d.len() {
                    None
                } else {
                    let padded = off + 512 + ((size + 511) / 512) * 512;
                    let next = if padded > d.len() {
                        d.len() as int
                    } else {
                        padded
                    };
                    match tar_entries_from(d, next) {
                        None => None,
                        Some(rest) => {
                            if is_regular_flag(d[off + 156]) {
                                Some(
                                    seq![
                                        TarEntryView {
                                            path: entry_path(d, off),
                                            data: d.subrange(off + 512, off + 512 + size),
                                        },
                                    ] + rest,
                                )
                            } else {
                                Some(rest)
                            }
                        },
                    }
                }
            },
        }
    }
}

/// The regular-file entries of the whole archive.
pub open spec fn tar_entries(d: Seq<u8>) -> Option<Seq<TarEntryView>> {
    tar_entries_from(d, 0)
}

/// Copy of the byte range `[from, to)`.
fn subvec(v: &Vec<u8>, from: usize, to: usize) -> (r: Vec<u8>)
    requires
        from <= to <= v@.len(),
    ensures
        r@ == v@.subrange(from as int, to as int),
{
    let mut out: Vec<u8> = Vec::new();
    let mut k: usize = from;
    while k < to
        invariant
            from <= k <= to <= v@.len(),
            out@ == v@.subrange(from as int, k as int),
        decreases to - k,
    {
        out.push(v[k]);
        proof {
            assert(out@ =~= v@.subrange(from as int, k + 1));
        }
        k = k + 1;
    }
    out
}

/// The NUL-terminated prefix of the field `[from, from + field_len)`.
fn cstr_vec(v: &Vec<u8>, from: usize, field_len: usize) -> (r: Vec<u8>)
    requires
        from + field_len <= v@.len(),
    ensures
        r@ == cstr(v@.subrange(from as int, from as int + field_len as int)),
{
    let ghost s = v@.subrange(from as int, from as int + field_len as int);
    let n = v.len();
    let mut k: usize = 0;
    while k < field_len && v[from + k] != 0
        invariant
            0 <= k <= field_len,
            n == v@.len(),
            from + field_len <= n,
            s == v@.subrange(from as int, from as int + field_len as int),
            nul_pos(s, 0) == nul_pos(s, k as int),
        decreases field_len - k,
    {
        k = k + 1;
    }
    proof {
        assert(nul_pos(s, 0) == k as int);
        assert(s.take(k as int) =~= v@.subrange(from as int, from as int + k as int));
    }
    subvec(v, from, from + k)
}

/// Eight to the power `e`.
pub open spec fn pow8(e: int) -> int
    decreases e,
{
    if e <= 0 {
        1
    } else {
        8 * pow8(e - 1)
    }
}

proof fn lemma_pow8_pos(e: int)
    ensures
        pow8(e) >= 1,
    decreases e,
{
    if e > 0 {
        lemma_pow8_pos(e - 1);
    }
}

proof fn lemma_pow8_le(a: int, b: int)
    requires
        a <= b,
    ensures
        pow8(a) <= pow8(b),
    decreases b - a,
{
    if a < b {
        lemma_pow8_le(a, b - 1);
        lemma_pow8_pos(b - 1);
    }
}

/// Reads the octal field `[from, from + 12)`, exactly as [`parse_octal`]
/// reads it.
fn parse_octal_field(v: &Vec<u8>, from: usize) -> (r: Option<u64>)
    requires
        from + 12 <= v@.len(),
    ensures
        (r is Some) <==> (parse_octal(v@.subrange(from as int, from as int + 12)) is Some),
        r matches Some(value) ==> parse_octal(v@.subrange(from as int, from as int + 12))
            == Some(value as int),
{
    let ghost s = v@.subrange(from as int, from as int + 12);
    let n = v.len();
    let mut k: usize = 0;
    while k < 12 && v[from + k] == 0x20
        invariant
            0 <= k <= 12,
            n == v@.len(),
            from + 12 <= n,
            s == v@.subrange(from as int, from as int + 12),
            skip_spaces(s, 0) == skip_spaces(s, k as int),
        decreases 12 - k,
    {
        k = k + 1;
    }
    proof {
        assert(skip_spaces(s, 0) == k as int);
    }
    let st = k;
    let mut acc: u64 = 0;
    while k < 12 && v[from + k] >= 0x30 && v[from + k] <= 0x37
        invariant
            st <= k <= 12,
            n == v@.len(),
            from + 12 <= n,
            s == v@.subrange(from as int, from as int + 12),
            skip_spaces(s, 0) == st as int,
            digits_end(s, st as int) == digits_end(s, k as int),
            acc as int == octal_val(s, st as int, k as int),
            (acc as int) < pow8(k - st),
        decreases 12 - k,
    {
        proof {
            lemma_pow8_le(k - st, 11);
            reveal_with_fuel(pow8, 13);
            assert(pow8(11) == 8589934592);
        }
        acc = acc * 8 + ((v[from + k] - 0x30) as u64);
        k = k + 1;
    }
    proof {
        assert(digits_end(s, st as int) == k as int);
    }
    if k == st {
        return None;
    }
    let en = k;
    while k < 12
        invariant
            st <= en <= k <= 12,
            n == v@.len(),
            from + 12 <= n,
            s == v@.subrange(from as int, from as int + 12),
            skip_spaces(s, 0) == st as int,
            digits_end(s, st as int) == en as int,
            forall|i: int| en <= i < k ==> s[i] == 0 || s[i] == 0x20,
        decreases 12 - k,
    {
        let b = v[from + k];
        if b != 0 && b != 0x20 {
            proof {
                assert(s[k as int] == b);
                assert(!trailer_ok(s, en as int));
                assert(skip_spaces(s, 0) == st as int);
                assert(digits_end(s, st as int) == en as int);
                assert(parse_octal(s) is None);
            }
            return None;
        }
        k = k + 1;
    }
    proof {
        assert(trailer_ok(s, en as int));
    }
    Some(acc)
}

/// True when the 512 bytes at `off` are all zero.
fn is_zero_block(v: &Vec<u8>, off: usize) -> (r: bool)
    requires
        off + 512 <= v@.len(),
    ensures
        r == block_zero(v@, off as int),
{
    let n = v.len();
    let mut k: usize = 0;
    while k < 512
        invariant
            0 <= k <= 512,
            n == v@.len(),
            off + 512 <= n,
            forall|i: int| off <= i < off + k ==> v@[i] == 0,
        decreases 512 - k,
    {
        if v[off + k] != 0 {
            return false;
        }
        k = k + 1;
    }
    true
}

/// Iterates the archive's regular-file entries, exactly as [`tar_entries`]
/// lists them; fails exactly on a malformed archive.
pub fn parse_tar(v: &Vec<u8>) -> (r: Result<Vec<TarEntry>, ()>)
    ensures
        (r is Ok) <==> (tar_entries(v@) is Some),
        r matches Ok(out) ==> tar_entries(v@) matches Some(es) && out@.len() == es.len()
            && forall|i: int| 0 <= i < es.len() ==> out@[i]@ == es[i],
{
    let ghost d = v@;
    let n = v.len();
    let mut off: usize = 0;
    let mut out: Vec<TarEntry> = Vec::new();
    loop
        invariant
            0 <= off <= n,
            n == d.len(),
            d == v@,
            match tar_entries_from(d, off as int) {
                Some(rest) => tar_entries(d) matches Some(all) && all == out@.map_values(
                    |e: TarEntry| e@,
                ) + rest,
                None => tar_entries(d) is None,
            },
        decreases n - off,
    {
        if off == n {
            proof {
                assert(out@.map_values(|e: TarEntry| e@) + Seq::<TarEntryView>::empty()
                    =~= out@.map_values(|e: TarEntry| e@));
            }
            return Ok(out);
        }
        if n - off < 512 {
            return Err(());
        }
        if is_zero_block(v, off) {
            proof {
                assert(out@.map_values(|e: TarEntry| e@) + Seq::<TarEntryView>::empty()
                    =~= out@.map_values(|e: TarEntry| e@));
            }
            return Ok(out);
        }
        let size64 = match parse_octal_field(v, off + 124) {
            Some(x) => x,
            None => {
                proof {
                    assert(d.subrange(off + 124, off as int + 136) =~= d.subrange(
                        off + 124,
                        off + 124 + 12,
                    ));
                }
                return Err(());
            },
        };
        proof {
            assert(d.subrange(off + 124, off as int + 136) =~= d.subrange(
                off + 124,
                off + 124 + 12,
            ));
        }
        if size64 > (n - off - 512) as u64 {
            return Err(());
        }
        let size = size64 as usize;
        let data = subvec(v, off + 512, off + 512 + size);
        let pad = if size % 512 == 0 {
            size
        } else {
            size - (size % 512) + 512
        };
        proof {
            assert(pad as int == ((size as int + 511) / 512) * 512) by (nonlinear_arith)
                requires
                    size as int >= 0,
                    pad as int == if size as int % 512 == 0 {
                        size as int
                    } else {
                        size as int - (size as int % 512) + 512
                    },
            ;
        }
        let padded_end = if pad > n - off - 512 {
            n
        } else {
            off + 512 + pad
        };
        let typeflag = v[off + 156];
        let ghost rest0 = tar_entries_from(d, padded_end as int);
        if typeflag == 0 || typeflag == 0x30 {
            let name = cstr_vec(v, off, 100);
            let prefix = cstr_vec(v, off + 345, 155);
            let path = if prefix.len() == 0 {
                name
            } else {
                let mut p = prefix;
                p.push(0x2f);
                let mut j: usize = 0;
                let name_len = name.len();
                while j < name_len
                    invariant
                        0 <= j <= name_len,
                        name_len == name@.len(),
                        p@ == cstr(d.subrange(off as int + 345, off as int + 500))
                            + seq![0x2fu8] + name@.take(j as int),
                    decreases name_len - j,
                {
                    p.push(name[j]);
                    proof {
                        assert(name@.take(j + 1) =~= name@.take(j as int).push(name@[j as int]));
                        assert(p@ =~= cstr(d.subrange(off as int + 345, off as int + 500))
                            + seq![0x2fu8] + name@.take(j + 1));
                    }
                    j = j + 1;
                }
                proof {
                    assert(name@.take(name_len as int) =~= name@);
                }
                p
            };
            proof {
                assert(d.subrange(off as int + 345, off as int + 345 + 155) =~= d.subrange(
                    off as int + 345,
                    off as int + 500,
                ));
                assert(d.subrange(off as int, off as int + 100) =~= d.subrange(
                    off as int,
                    off as int + 100,
                ));
                assert(path@ == entry_path(d, off as int));
            }
            let entry = TarEntry { path, data };
            proof {
                let f = |e: TarEntry| e@;
                assert(out@.push(entry).map_values(f) =~= out@.map_values(f).push(entry@));
                match rest0 {
                    Some(rest) => {
                        assert(tar_entries_from(d, off as int) == Some(seq![entry@] + rest));
                        assert(out@.map_values(f) + (seq![entry@] + rest) =~= out@.push(
                            entry,
                        ).map_values(f) + rest);
                    },
                    None => {},
                }
            }
            out.push(entry);
        } else {
            proof {
                assert(tar_entries_from(d, off as int) == rest0);
            }
        }
        off = padded_end;
    }
}

} // verus!
