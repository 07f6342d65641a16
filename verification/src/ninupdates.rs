//! The names of files that the system update archive publishes:
//! `sysupdatedl/autodl_sysupdates/<date>/<title id>/<region>/v<version>/<file>`.

use vstd::prelude::*;
use vstd::string::StringSliceAdditionalSpecFns;
use vstd::utf8::encode_utf8;
use crate::ipc_parse::IpcFile;
use crate::swipc::lexer::{digits_value, hex_digit, is_digit, lemma_value_grows};
use crate::swipc::text::{bytes_eq, push_bytes, push_decimal, decimal};

verus! {

/// The region of a system update.
#[derive(Clone, Copy, PartialEq, Eq, Debug, Structural)]
pub enum Region {
    Global,
    China,
}

impl Region {
    /// The region that `s` names: `CHN` or `ALL`.
    pub fn parse(s: &str) -> (r: Option<Self>)
        ensures
            s.spec_bytes() == "CHN".spec_bytes() ==> r == Some(Region::China),
            s.spec_bytes() == "ALL".spec_bytes() ==> r == Some(Region::Global),
            s.spec_bytes() != "CHN".spec_bytes() && s.spec_bytes() != "ALL".spec_bytes() ==> r is None,
    {
        proof {
            reveal_strlit("CHN");
            reveal_strlit("ALL");
            vstd::utf8::encode_utf8_decode_utf8("CHN"@);
            vstd::utf8::encode_utf8_decode_utf8("ALL"@);
            assert("CHN"@[0] != "ALL"@[0]);
        }
        if bytes_eq(s.as_bytes(), "CHN".as_bytes()) {
            Some(Region::China)
        } else if bytes_eq(s.as_bytes(), "ALL".as_bytes()) {
            Some(Region::Global)
        } else {
            None
        }
    }

    pub open spec fn name_spec(self) -> Seq<u8> {
        match self {
            Region::Global => "ALL".spec_bytes(),
            Region::China => "CHN".spec_bytes(),
        }
    }

    /// The name of the region, as the archive writes it.
    pub fn name(&self) -> (r: &'static str)
        ensures
            r.spec_bytes() == self.name_spec(),
    {
        match self {
            Region::Global => "ALL",
            Region::China => "CHN",
        }
    }
}

/// The first index from `i` on that holds a `/`, or the length.
pub open spec fn slash_from(s: Seq<char>, i: int) -> int
    decreases s.len() - i,
{
    if i < 0 || i >= s.len() {
        s.len() as int
    } else if s[i] == '/' {
        i
    } else {
        slash_from(s, i + 1)
    }
}

/// The parts that the archive's pattern captures in a match that starts at
/// `i`: the fixed prefix, then the date, title id and region, each up to the
/// next `/`, then `v` and the version up to the next `/`, then the file name
/// up to the next `/` or the end.
pub open spec fn captures_at(s: Seq<char>, i: int) -> Option<Seq<Seq<char>>> {
    let prefix = "sysupdatedl/autodl_sysupdates/"@;
    let a = i + prefix.len();
    let ae = slash_from(s, a);
    let b = ae + 1;
    let be = slash_from(s, b);
    let c = be + 1;
    let ce = slash_from(s, c);
    let d = ce + 1;
    let e = d + 1;
    let ee = slash_from(s, e);
    let f = ee + 1;
    let fe = slash_from(s, f);
    if 0 <= i && a <= s.len() && s.subrange(i, a) == prefix && ae < s.len() && be < s.len() && ce < s.len()
        && d < s.len() && s[d] == 'v' && ee < s.len() {
        Some(seq![s.subrange(a, ae), s.subrange(b, be), s.subrange(c, ce), s.subrange(e, ee), s.subrange(f, fe)])
    } else {
        None
    }
}

/// The captures of the leftmost match that starts at `i` or later.
pub open spec fn captures_from(s: Seq<char>, i: int) -> Option<Seq<Seq<char>>>
    decreases s.len() + 1 - i,
{
    if i < 0 || i > s.len() {
        None
    } else {
        match captures_at(s, i) {
            Some(parts) => Some(parts),
            None => captures_from(s, i + 1),
        }
    }
}

/// The parts of a file name that the archive's pattern captures: date, title
/// id, region, version and file name, in the leftmost match, if the text
/// holds one.
pub open spec fn file_name_captures(s: Seq<char>) -> Option<Seq<Seq<char>>> {
    captures_from(s, 0)
}

/// Match a text against the archive's file name pattern.
///
/// Calls `regex::Regex::captures` with the pattern
/// `sysupdatedl/autodl_sysupdates/(?P<date>[^/]*)/(?P<title_id>[^/]*)/(?P<region>[^/]*)/v(?P<version>[^/]*)/(?P<file>[^/]*)`
/// and returns the five named groups of the leftmost match in that order. As
/// `[^/]*` cannot take a `/`, each group but the last runs exactly up to the
/// `/` that follows it, and the last up to the next `/` or the end, which is
/// what the contract states.
#[verifier::external_body]
fn captures_of(s: &str) -> (r: Option<Vec<String>>)
    ensures
        r matches Some(v) ==> v@.len() == 5,
        match file_name_captures(s@) {
            None => r is None,
            Some(parts) => (r matches Some(v) && v@.map_values(|x: String| x@) == parts),
        },
{
    let re = regex::Regex::new(
        r"sysupdatedl/autodl_sysupdates/(?P<date>[^/]*)/(?P<title_id>[^/]*)/(?P<region>[^/]*)/v(?P<version>[^/]*)/(?P<file>[^/]*)",
    ).unwrap();
    let c = re.captures(s)?;
    Some(["date", "title_id", "region", "version", "file"].iter().map(|n| c.name(n).unwrap().as_str().to_string()).collect())
}

/// The value of `s` as a number in `base` (10 or 16), the way the standard
/// library reads an unsigned integer: an optional `+`, then one digit or more.
pub open spec fn radix_value(s: Seq<u8>, base: nat) -> Option<nat> {
    if s.len() > 0 && s[0] == 43 {
        digits_value(s.drop_first(), base)
    } else {
        digits_value(s, base)
    }
}

/// Read `s` as a number in `base`; `None` when it is not one or exceeds `max`.
fn parse_radix(s: &[u8], base: u64, max: u64) -> (r: Option<u64>)
    requires
        base == 10 || base == 16,
    ensures
        match radix_value(s@, base as nat) {
            Some(v) => if v <= max {
                r == Some(v as u64)
            } else {
                r is None
            },
            None => r is None,
        },
{
    let start: usize = if s.len() > 0 && s[0] == 43 { 1 } else { 0 };
    let ghost digits = s@.skip(start as int);
    proof {
        if start == 1 {
            assert(digits =~= s@.drop_first());
        } else {
            assert(digits =~= s@);
        }
        assert(radix_value(s@, base as nat) == digits_value(digits, base as nat));
    }
    if start >= s.len() {
        assert(digits.len() == 0);
        return None;
    }
    let mut v: u64 = 0;
    let mut i: usize = start;
    while i < s.len()
        invariant
            start <= i <= s@.len(),
            start < s@.len(),
            base == 10 || base == 16,
            digits == s@.skip(start as int),
            radix_value(s@, base as nat) == digits_value(digits, base as nat),
            i > start ==> digits_value(s@.subrange(start as int, i as int), base as nat) == Some(v as nat),
            i == start ==> v == 0,
            v <= max,
        decreases s@.len() - i,
    {
        let c = s[i];
        let d: u64 = if base == 16 {
            if 48 <= c && c <= 57 {
                (c - 48) as u64
            } else if 97 <= c && c <= 102 {
                (c - 87) as u64
            } else if 65 <= c && c <= 70 {
                (c - 55) as u64
            } else {
                proof {
                    lemma_bad_digit(s@.subrange(start as int, s@.len() as int), (i - start) as int, base as nat);
                    assert(s@.subrange(start as int, s@.len() as int) =~= digits);
                }
                return None;
            }
        } else if 48 <= c && c <= 57 {
            (c - 48) as u64
        } else {
            proof {
                lemma_bad_digit(s@.subrange(start as int, s@.len() as int), (i - start) as int, base as nat);
                assert(s@.subrange(start as int, s@.len() as int) =~= digits);
            }
            return None;
        };
        proof {
            let t = s@.subrange(start as int, i + 1);
            assert(t.drop_last() =~= s@.subrange(start as int, i as int));
            assert(t.last() == c);
        }
        let nv = if d <= max && v <= (max - d) / base {
            proof {
                assert(v * base + d <= max) by (nonlinear_arith)
                    requires
                        v <= (max - d) as int / base as int,
                        base > 0,
                        d <= max,
                ;
            }
            v * base + d
        } else {
            proof {
                assert(v * base + d > max) by (nonlinear_arith)
                    requires
                        d > max || v > (max - d) as int / base as int,
                        base > 0,
                ;
                lemma_value_grows(s@.subrange(start as int, s@.len() as int), (i + 1 - start) as int, base as nat);
                assert(s@.subrange(start as int, s@.len() as int) =~= digits);
                assert(s@.subrange(start as int, s@.len() as int).take((i + 1 - start) as int) =~= s@.subrange(start as int, i + 1));
            }
            return None;
        };
        v = nv;
        i = i + 1;
    }
    assert(s@.subrange(start as int, s@.len() as int) =~= digits);
    Some(v)
}

/// A string of digits with a non-digit at index `k` has no value.
proof fn lemma_bad_digit(s: Seq<u8>, k: int, base: nat)
    requires
        0 <= k < s.len(),
        base == 10 ==> !is_digit(s[k]),
        base == 16 ==> hex_digit(s[k]) is None,
        base == 10 || base == 16,
    ensures
        digits_value(s, base) is None,
    decreases s.len(),
{
    if k < s.len() - 1 {
        lemma_bad_digit(s.drop_last(), k, base);
    }
}

/// The bytes of a string.
pub open spec fn bytes_of(s: String) -> Seq<u8> {
    encode_utf8(s@)
}

/// A file of the archive.
#[derive(Debug)]
pub struct FileId {
    pub date: String,
    pub title_id: u64,
    pub region: Region,
    pub version: u32,
    pub filename: String,
}

/// The region that a name stands for.
pub open spec fn region_of(s: Seq<u8>) -> Option<Region> {
    if s == "CHN".spec_bytes() {
        Some(Region::China)
    } else if s == "ALL".spec_bytes() {
        Some(Region::Global)
    } else {
        None
    }
}

/// The captured title id is hexadecimal and the version decimal, each within
/// its type.
pub open spec fn captures_readable(parts: Seq<Seq<char>>) -> bool {
    &&& parts.len() == 5
    &&& radix_value(encode_utf8(parts[1]), 16) matches Some(t) && t <= u64::MAX
    &&& radix_value(encode_utf8(parts[3]), 10) matches Some(v) && v <= u32::MAX
}

impl FileId {
    /// The file that the captured parts name; the title id must be
    /// hexadecimal and the version decimal. `None` for an unknown region.
    pub fn from_captures(parts: Vec<String>) -> (r: Option<Self>)
        requires
            captures_readable(parts@.map_values(|x: String| x@)),
        ensures
            r is Some <==> region_of(bytes_of(parts@[2])) is Some,
            r matches Some(f) ==> f.date@ == parts@[0]@ && f.title_id == radix_value(bytes_of(parts@[1]), 16)->0
                && f.region == region_of(bytes_of(parts@[2]))->0 && f.version == radix_value(bytes_of(parts@[3]), 10)->0
                && f.filename@ == parts@[4]@,
    {
        let ghost pv = parts@.map_values(|x: String| x@);
        assert(pv[1] == parts@[1]@ && pv[3] == parts@[3]@);
        let title_id = match parse_radix(parts[1].as_str().as_bytes(), 16, 0xffff_ffff_ffff_ffff) {
            Some(t) => t,
            None => {
                proof {
                    assert(false);
                }
                0
            },
        };
        let version = match parse_radix(parts[3].as_str().as_bytes(), 10, 0xffff_ffff) {
            Some(v) => v as u32,
            None => {
                proof {
                    assert(false);
                }
                0
            },
        };
        let region = match Region::parse(parts[2].as_str()) {
            Some(r) => r,
            None => {
                return None;
            },
        };
        let mut parts = parts;
        let filename = parts.pop().unwrap();
        let _version_text = parts.pop();
        let _region_text = parts.pop();
        let _title_text = parts.pop();
        let date = parts.pop().unwrap();
        Some(FileId { date, title_id, region, version, filename })
    }

    /// The file that `s` names. `None` when `s` does not hold such a name, its
    /// region is unknown, or its title id or version cannot be read.
    pub fn parse(s: &str) -> (r: Option<Self>)
        ensures
            match file_name_captures(s@) {
                None => r is None,
                Some(parts) => if captures_readable(parts) && region_of(encode_utf8(parts[2])) is Some {
                    (r matches Some(f) && f.date@ == parts[0] && f.title_id == radix_value(encode_utf8(parts[1]), 16)->0
                        && f.region == region_of(encode_utf8(parts[2]))->0
                        && f.version == radix_value(encode_utf8(parts[3]), 10)->0 && f.filename@ == parts[4])
                } else {
                    r is None
                },
            },
    {
        let parts = match captures_of(s) {
            Some(p) => p,
            None => {
                return None;
            },
        };
        let ghost pv = parts@.map_values(|x: String| x@);
        proof {
            assert(pv[1] == parts@[1]@ && pv[2] == parts@[2]@ && pv[3] == parts@[3]@);
        }
        if parse_radix(parts[1].as_str().as_bytes(), 16, 0xffff_ffff_ffff_ffff).is_none() || parse_radix(
            parts[3].as_str().as_bytes(),
            10,
            0xffff_ffff,
        ).is_none() {
            return None;
        }
        Self::from_captures(parts)
    }

    /// The name of the file, as the archive writes it: the title id as 16
    /// upper-case hexadecimal digits.
    pub open spec fn display_spec(&self) -> Seq<u8> {
        "sysupdatedl/autodl_sysupdates/".spec_bytes() + bytes_of(self.date) + seq![47u8] + hex16(self.title_id)
            + seq![47u8] + self.region.name_spec() + seq![47u8, 118u8] + decimal(self.version as nat) + seq![47u8]
            + bytes_of(self.filename)
    }

    /// The name of the file, as the archive writes it.
    pub fn display(&self) -> (r: Vec<u8>)
        ensures
            r@ == self.display_spec(),
    {
        let mut r: Vec<u8> = Vec::new();
        push_bytes(&mut r, "sysupdatedl/autodl_sysupdates/".as_bytes());
        push_bytes(&mut r, self.date.as_str().as_bytes());
        r.push(47u8);
        push_hex16(&mut r, self.title_id);
        r.push(47u8);
        push_bytes(&mut r, self.region.name().as_bytes());
        r.push(47u8);
        r.push(118u8);
        push_decimal(&mut r, self.version as u64);
        r.push(47u8);
        push_bytes(&mut r, self.filename.as_str().as_bytes());
        assert(r@ =~= self.display_spec());
        r
    }

    /// Whether the file is a modern server description of a global update.
    pub fn is_global_server_info(&self) -> (r: bool)
        ensures
            r == (self.region == Region::Global && "swipcgen_server_modern.info".spec_bytes().is_suffix_of(
                bytes_of(self.filename),
            )),
    {
        let name = self.filename.as_str().as_bytes();
        let suffix = "swipcgen_server_modern.info".as_bytes();
        if self.region != Region::Global || name.len() < suffix.len() {
            return false;
        }
        let tail = vstd::slice::slice_subrange(name, name.len() - suffix.len(), name.len());
        bytes_eq(tail, suffix)
    }
}

/// The address of the archive of system updates.
pub open spec fn base_url() -> Seq<u8> {
    "https://yls8.mtheall.com/ninupdates".spec_bytes()
}

impl FileId {
    /// Where the file is fetched from: the archive's address, a slash and
    /// the file's name.
    pub fn url(&self) -> (r: Vec<u8>)
        ensures
            r@ == base_url() + seq![47u8] + self.display_spec(),
    {
        let mut r: Vec<u8> = Vec::new();
        push_bytes(&mut r, "https://yls8.mtheall.com/ninupdates".as_bytes());
        r.push(47u8);
        let name = self.display();
        push_bytes(&mut r, name.as_slice());
        assert(r@ =~= base_url() + seq![47u8] + self.display_spec());
        r
    }
}

/// The address of the archive's list of the titles of one snapshot.
pub fn file_list_url() -> (r: Vec<u8>)
    ensures
        r@ == base_url() + "/titlelist.php?date=2022-03-22_00-05-06&sys=hac&reg=G".spec_bytes(),
{
    let mut r: Vec<u8> = Vec::new();
    push_bytes(&mut r, "https://yls8.mtheall.com/ninupdates".as_bytes());
    push_bytes(&mut r, "/titlelist.php?date=2022-03-22_00-05-06&sys=hac&reg=G".as_bytes());
    r
}

/// The file that the text `s` names, by value, when `FileId::parse` gives one.
pub open spec fn names_file(s: Seq<char>, f: FileId) -> bool {
    match file_name_captures(s) {
        Some(parts) => {
            &&& captures_readable(parts)
            &&& region_of(encode_utf8(parts[2])) == Some(f.region)
            &&& f.date@ == parts[0]
            &&& f.title_id == radix_value(encode_utf8(parts[1]), 16)->0
            &&& f.version == radix_value(encode_utf8(parts[3]), 10)->0
            &&& f.filename@ == parts[4]
        },
        None => false,
    }
}

/// Whether `FileId::parse` gives a file for the text `s`.
pub open spec fn parses_as_file(s: Seq<char>) -> bool {
    match file_name_captures(s) {
        Some(parts) => captures_readable(parts) && region_of(encode_utf8(parts[2])) is Some,
        None => false,
    }
}

/// The indices of the first `n` links that name a file, in order.
pub open spec fn file_links(links: Seq<String>, n: int) -> Seq<int>
    decreases n,
{
    if n <= 0 {
        Seq::empty()
    } else if parses_as_file(links[n - 1]@) {
        file_links(links, n - 1).push(n - 1)
    } else {
        file_links(links, n - 1)
    }
}

/// The indices of the first `n` links that look like files of the archive
/// (they start with `sysupdatedl`) but do not name one.
pub open spec fn skipped_links(links: Seq<String>, n: int) -> Seq<int>
    decreases n,
{
    if n <= 0 {
        Seq::empty()
    } else if !parses_as_file(links[n - 1]@) && "sysupdatedl".spec_bytes().is_prefix_of(encode_utf8(links[n - 1]@)) {
        skipped_links(links, n - 1).push(n - 1)
    } else {
        skipped_links(links, n - 1)
    }
}

/// What the links of the list of titles hold: the files that they name with
/// the indices of their links, in order, and the indices of the links that
/// look like files of the archive but name none.
#[derive(Debug)]
pub struct LinkedFiles {
    pub files: Vec<FileId>,
    pub indices: Vec<usize>,
    pub skipped: Vec<usize>,
}

/// Read the links of the list of titles.
pub fn files_from_links(links: &Vec<String>) -> (r: LinkedFiles)
    ensures
        r.indices@.map_values(|i: usize| i as int) == file_links(links@, links@.len() as int),
        r.files@.len() == r.indices@.len(),
        forall|j: int| 0 <= j < r.files@.len() ==> names_file(links@[r.indices@[j] as int]@, #[trigger] r.files@[j]),
        r.skipped@.map_values(|i: usize| i as int) == skipped_links(links@, links@.len() as int),
{
    let mut files: Vec<FileId> = Vec::new();
    let mut indices: Vec<usize> = Vec::new();
    let mut skipped: Vec<usize> = Vec::new();
    let mut i: usize = 0;
    while i < links.len()
        invariant
            i <= links@.len(),
            indices@.map_values(|k: usize| k as int) == file_links(links@, i as int),
            files@.len() == indices@.len(),
            forall|j: int| 0 <= j < files@.len() ==> names_file(links@[indices@[j] as int]@, #[trigger] files@[j]),
            skipped@.map_values(|k: usize| k as int) == skipped_links(links@, i as int),
        decreases links@.len() - i,
    {
        let ghost before = files@;
        let ghost before_indices = indices@;
        match FileId::parse(links[i].as_str()) {
            Some(f) => {
                files.push(f);
                indices.push(i);
                assert forall|j: int| 0 <= j < files@.len() implies names_file(
                    links@[indices@[j] as int]@,
                    #[trigger] files@[j],
                ) by {
                    if j < before.len() {
                        assert(files@[j] == before[j]);
                        assert(indices@[j] == before_indices[j]);
                    }
                }
            },
            None => {
                let b = links[i].as_str().as_bytes();
                let prefix = "sysupdatedl".as_bytes();
                if b.len() >= prefix.len() && bytes_eq(vstd::slice::slice_subrange(b, 0, prefix.len()), prefix) {
                    skipped.push(i);
                    assert("sysupdatedl".spec_bytes().is_prefix_of(encode_utf8(links@[i as int]@)));
                } else {
                    assert(!"sysupdatedl".spec_bytes().is_prefix_of(encode_utf8(links@[i as int]@)));
                }
            },
        }
        i = i + 1;
        assert(indices@.map_values(|k: usize| k as int) =~= file_links(links@, i as int));
        assert(skipped@.map_values(|k: usize| k as int) =~= skipped_links(links@, i as int));
    }
    LinkedFiles { files, indices, skipped }
}

/// The upper-case hexadecimal digit of `d`.
pub open spec fn hex_char(d: nat) -> u8 {
    if d < 10 {
        (48 + d) as u8
    } else {
        (55 + d) as u8
    }
}

/// `v` as 16 upper-case hexadecimal digits.
pub open spec fn hex16(v: u64) -> Seq<u8> {
    Seq::new(16, |i: int| hex_char(((v as nat) / pow16((15 - i) as nat)) % 16))
}

/// 16 to the power `k`.
pub open spec fn pow16(k: nat) -> nat
    decreases k,
{
    if k == 0 {
        1
    } else {
        16 * pow16((k - 1) as nat)
    }
}

fn push_hex16(out: &mut Vec<u8>, v: u64)
    ensures
        final(out)@ == old(out)@ + hex16(v),
{
    let ghost o = out@;
    let mut i: usize = 0;
    let mut shift: u64 = 60;
    while i < 16
        invariant
            i <= 16,
            shift == 60 - 4 * i || (i == 16),
            out@ == o + hex16(v).take(i as int),
        decreases 16 - i,
    {
        let d = ((v >> shift) & 0xf) as u8;
        proof {
            lemma_hex_digit_shift(v, (15 - i) as nat, shift);
        }
        let c = if d < 10 { 48 + d } else { 55 + d };
        out.push(c);
        assert(out@ =~= o + hex16(v).take(i + 1));
        i = i + 1;
        if shift >= 4 {
            shift = shift - 4;
        }
    }
    assert(hex16(v).take(16) =~= hex16(v));
}

proof fn lemma_hex_digit_shift(v: u64, k: nat, shift: u64)
    requires
        k <= 15,
        shift == 4 * k,
    ensures
        ((v >> shift) & 0xf) as nat == ((v as nat) / pow16(k)) % 16,
{
    lemma_pow16_shift(k);
    assert((v >> shift) & 0xf == (v >> shift) % 16) by (bit_vector);
    vstd::bits::lemma_u64_shr_is_div(v, shift);
    vstd::arithmetic::power2::lemma_pow2_pos(shift as nat);
}

proof fn lemma_pow16_shift(k: nat)
    requires
        k <= 15,
    ensures
        pow16(k) == vstd::arithmetic::power2::pow2(4 * k),
    decreases k,
{
    if k > 0 {
        lemma_pow16_shift((k - 1) as nat);
        vstd::arithmetic::power2::lemma_pow2_adds(4 * ((k - 1) as nat), 4);
        vstd::arithmetic::power2::lemma2_to64();
    } else {
        vstd::arithmetic::power2::lemma2_to64();
    }
}

/// Add to `types` the buffer types of every method of `file`, each type once.
pub fn collect_buffer_types(types: &mut Vec<u32>, file: &IpcFile)
    requires
        old(types)@.no_duplicates(),
    ensures
        final(types)@.no_duplicates(),
        forall|x: u32| old(types)@.contains(x) ==> final(types)@.contains(x),
        forall|i: int, j: int, k: int| 0 <= i < file.interfaces@.len() && 0 <= j < file.interfaces@[i].methods@.len()
            && 0 <= k < file.interfaces@[i].methods@[j].1.buffers@.len() ==> final(types)@.contains(
            file.interfaces@[i].methods@[j].1.buffers@[k],
        ),
        forall|x: u32| final(types)@.contains(x) ==> old(types)@.contains(x) || exists|i: int, j: int, k: int|
            0 <= i < file.interfaces@.len() && 0 <= j < file.interfaces@[i].methods@.len() && 0 <= k
                < file.interfaces@[i].methods@[j].1.buffers@.len() && file.interfaces@[i].methods@[j].1.buffers@[k] == x,
{
    let ghost t0 = types@;
    let mut i: usize = 0;
    while i < file.interfaces.len()
        invariant
            i <= file.interfaces@.len(),
            types@.no_duplicates(),
            forall|x: u32| t0.contains(x) ==> types@.contains(x),
            forall|a: int, j: int, k: int| 0 <= a < i && 0 <= j < file.interfaces@[a].methods@.len() && 0 <= k
                < file.interfaces@[a].methods@[j].1.buffers@.len() ==> types@.contains(
                file.interfaces@[a].methods@[j].1.buffers@[k],
            ),
            forall|x: u32| types@.contains(x) ==> t0.contains(x) || exists|a: int, j: int, k: int|
                0 <= a < i && 0 <= j < file.interfaces@[a].methods@.len() && 0 <= k
                    < file.interfaces@[a].methods@[j].1.buffers@.len() && file.interfaces@[a].methods@[j].1.buffers@[k] == x,
        decreases file.interfaces@.len() - i,
    {
        let methods = &file.interfaces[i].methods;
        let mut j: usize = 0;
        while j < methods.len()
            invariant
                i < file.interfaces@.len(),
                methods == &file.interfaces@[i as int].methods,
                j <= methods@.len(),
                types@.no_duplicates(),
                forall|x: u32| t0.contains(x) ==> types@.contains(x),
                forall|a: int, jj: int, k: int| 0 <= a < i && 0 <= jj < file.interfaces@[a].methods@.len() && 0 <= k
                    < file.interfaces@[a].methods@[jj].1.buffers@.len() ==> types@.contains(
                    file.interfaces@[a].methods@[jj].1.buffers@[k],
                ),
                forall|jj: int, k: int| 0 <= jj < j && 0 <= k < methods@[jj].1.buffers@.len() ==> types@.contains(
                    methods@[jj].1.buffers@[k],
                ),
                forall|x: u32| types@.contains(x) ==> t0.contains(x) || exists|a: int, jj: int, k: int|
                    0 <= a <= i && 0 <= jj < file.interfaces@[a].methods@.len() && 0 <= k
                        < file.interfaces@[a].methods@[jj].1.buffers@.len() && file.interfaces@[a].methods@[jj].1.buffers@[k] == x,
            decreases methods@.len() - j,
        {
            let buffers = &methods[j].1.buffers;
            let mut k: usize = 0;
            while k < buffers.len()
                invariant
                    i < file.interfaces@.len(),
                    methods == &file.interfaces@[i as int].methods,
                    j < methods@.len(),
                    buffers == &methods@[j as int].1.buffers,
                    k <= buffers@.len(),
                    types@.no_duplicates(),
                    forall|x: u32| t0.contains(x) ==> types@.contains(x),
                    forall|a: int, jj: int, kk: int| 0 <= a < i && 0 <= jj < file.interfaces@[a].methods@.len() && 0 <= kk
                        < file.interfaces@[a].methods@[jj].1.buffers@.len() ==> types@.contains(
                        file.interfaces@[a].methods@[jj].1.buffers@[kk],
                    ),
                    forall|jj: int, kk: int| 0 <= jj < j && 0 <= kk < methods@[jj].1.buffers@.len() ==> types@.contains(
                        methods@[jj].1.buffers@[kk],
                    ),
                    forall|kk: int| 0 <= kk < k ==> types@.contains(buffers@[kk]),
                    forall|x: u32| types@.contains(x) ==> t0.contains(x) || exists|a: int, jj: int, kk: int|
                        0 <= a <= i && 0 <= jj < file.interfaces@[a].methods@.len() && 0 <= kk
                            < file.interfaces@[a].methods@[jj].1.buffers@.len() && file.interfaces@[a].methods@[jj].1.buffers@[kk] == x,
                decreases buffers@.len() - k,
            {
                let b = buffers[k];
                if !contains_u32(types, b) {
                    let ghost before = types@;
                    types.push(b);
                    proof {
                        assert forall|x: u32| types@.contains(x) implies t0.contains(x) || exists|a: int, jj: int, kk: int|
                            0 <= a <= i && 0 <= jj < file.interfaces@[a].methods@.len() && 0 <= kk
                                < file.interfaces@[a].methods@[jj].1.buffers@.len() && file.interfaces@[a].methods@[jj].1.buffers@[kk] == x by {
                            if x != b {
                                assert(before.contains(x));
                            } else {
                                assert(file.interfaces@[i as int].methods@[j as int].1.buffers@[k as int] == x);
                            }
                        }
                        assert forall|y: u32| before.contains(y) implies types@.contains(y) by {
                            let w = choose|w: int| 0 <= w < before.len() && before[w] == y;
                            assert(types@[w] == y);
                        }
                        assert(types@[before.len() as int] == b);
                    }
                }
                k = k + 1;
            }
            j = j + 1;
        }
        assert forall|a: int, jj: int, kk: int| 0 <= a < i + 1 && 0 <= jj < file.interfaces@[a].methods@.len() && 0 <= kk
            < file.interfaces@[a].methods@[jj].1.buffers@.len() implies types@.contains(
            file.interfaces@[a].methods@[jj].1.buffers@[kk],
        ) by {
            if a == i {
                assert(methods@[jj] == file.interfaces@[a].methods@[jj]);
            }
        }
        i = i + 1;
    }
}

/// Whether `x` is in `v`.
fn contains_u32(v: &Vec<u32>, x: u32) -> (r: bool)
    ensures
        r == v@.contains(x),
{
    let mut i: usize = 0;
    while i < v.len()
        invariant
            i <= v@.len(),
            forall|j: int| 0 <= j < i ==> v@[j] != x,
        decreases v@.len() - i,
    {
        if v[i] == x {
            return true;
        }
        i = i + 1;
    }
    false
}

} // verus!
