//! Deterministic fingerprints of benchmark file sets: the FNV-1a 64-bit hash
//! of every selected file's portable path, length and bytes, in path order,
//! printed as sixteen lowercase hex digits. It serves change detection and
//! provenance, not cryptography.

use vstd::prelude::*;
use vstd::bytes::{spec_u64_to_le_bytes, u64_to_le_bytes};
use vstd::utf8::encode_utf8;
use vstd::arithmetic::power::{pow, lemma_pow_positive};
use vstd::arithmetic::div_mod::lemma_div_denominator;
use vstd::utf8::is_ascii_chars;
use crate::tools::{replace_all, str_replace};

verus! {

/// Starting state of the FNV-1a 64-bit hash.
pub const FNV_OFFSET_BASIS: u64 = 0xcbf29ce484222325;

/// Multiplier of the FNV-1a 64-bit hash.
pub const FNV_PRIME: u64 = 0x100000001b3;

/// One FNV-1a step: xor the byte in, then multiply modulo 2^64.
pub open spec fn fnv1a_step(state: u64, byte: u8) -> u64 {
    (((state ^ (byte as u64)) as int * FNV_PRIME as int) % 0x1_0000_0000_0000_0000) as u64
}

/// The FNV-1a state after feeding `bytes`, in order, to `state`.
pub open spec fn fnv1a(state: u64, bytes: Seq<u8>) -> u64
    decreases bytes.len(),
{
    if bytes.len() == 0 {
        state
    } else {
        fnv1a_step(fnv1a(state, bytes.drop_last()), bytes.last())
    }
}

/// Hashing is streaming: feeding `a` and then `b` is feeding `a + b`.
pub proof fn lemma_fnv1a_concat(state: u64, a: Seq<u8>, b: Seq<u8>)
    ensures
        fnv1a(fnv1a(state, a), b) == fnv1a(state, a + b),
    decreases b.len(),
{
    if b.len() == 0 {
        assert(a + b =~= a);
    } else {
        lemma_fnv1a_concat(state, a, b.drop_last());
        assert((a + b).drop_last() =~= a + b.drop_last());
    }
}

/// A 64-bit FNV-1a hasher fed bytes piece by piece.
pub struct Fnv1a64 {
    state: u64,
}

impl View for Fnv1a64 {
    type V = u64;

    closed spec fn view(&self) -> u64 {
        self.state
    }
}

impl Fnv1a64 {
    /// A hasher in the starting state.
    pub fn new() -> (hasher: Self)
        ensures
            hasher@ == FNV_OFFSET_BASIS,
    {
        Fnv1a64 { state: FNV_OFFSET_BASIS }
    }

    /// Feed `bytes`, in order.
    pub fn write(&mut self, bytes: &[u8])
        ensures
            final(self)@ == fnv1a(old(self)@, bytes@),
    {
        let mut i: usize = 0;
        while i < bytes.len()
            invariant
                i <= bytes@.len(),
                self@ == fnv1a(old(self)@, bytes@.take(i as int)),
            decreases bytes@.len() - i,
        {
            proof {
                assert(bytes@.take(i + 1).drop_last() =~= bytes@.take(i as int));
            }
            self.state = (self.state ^ (bytes[i] as u64)).wrapping_mul(FNV_PRIME);
            i += 1;
        }
        proof {
            assert(bytes@.take(bytes@.len() as int) =~= bytes@);
        }
    }

    /// The hash of everything fed so far.
    pub fn finish(&self) -> (digest: u64)
        ensures
            digest == self@,
    {
        self.state
    }
}

/// One file of a fingerprinted set: its path relative to the root with `/`
/// separators, its length where its metadata could be read, and its bytes
/// where the file could be read.
pub struct FileRecord {
    pub relative_path: String,
    pub length: Option<u64>,
    pub contents: Option<Vec<u8>>,
}

/// The bytes a known length contributes: eight little-endian bytes.
pub open spec fn length_stream(length: Option<u64>) -> Seq<u8> {
    match length {
        Some(n) => spec_u64_to_le_bytes(n),
        None => Seq::empty(),
    }
}

/// The bytes that read contents contribute: all of them.
pub open spec fn contents_stream(contents: Option<Vec<u8>>) -> Seq<u8> {
    match contents {
        Some(c) => c@,
        None => Seq::empty(),
    }
}

/// The bytes a file contributes: its path in UTF-8, a zero byte, its length
/// as eight little-endian bytes, its contents, and a 0xff byte; a length or
/// contents that could not be read contribute nothing.
pub open spec fn record_stream(record: FileRecord) -> Seq<u8> {
    encode_utf8(record.relative_path@) + seq![0u8] + length_stream(record.length)
        + contents_stream(record.contents) + seq![0xffu8]
}

/// The bytes a list of files contributes, file after file.
pub open spec fn records_stream(records: Seq<FileRecord>) -> Seq<u8>
    decreases records.len(),
{
    if records.len() == 0 {
        Seq::empty()
    } else {
        records_stream(records.drop_last()) + record_stream(records.last())
    }
}

/// Feed one file's bytes to a hasher.
fn write_record(hasher: &mut Fnv1a64, record: &FileRecord)
    ensures
        final(hasher)@ == fnv1a(old(hasher)@, record_stream(*record)),
{
    let ghost start = hasher@;
    let path = record.relative_path.as_str().as_bytes();
    let ghost p = path@;
    assert(p == encode_utf8(record.relative_path@));
    hasher.write(path);
    let zero = vec![0u8];
    hasher.write(zero.as_slice());
    let ghost s1 = p + seq![0u8];
    proof {
        assert(zero@ =~= seq![0u8]);
        lemma_fnv1a_concat(start, p, seq![0u8]);
    }
    assert(hasher@ == fnv1a(start, s1));
    let ghost len_bytes = length_stream(record.length);
    match record.length {
        Some(n) => {
            let bytes = u64_to_le_bytes(n);
            hasher.write(bytes.as_slice());
            proof {
                assert(bytes@ == len_bytes);
                lemma_fnv1a_concat(start, s1, bytes@);
            }
        },
        None => {
            proof {
                assert(s1 + len_bytes =~= s1);
            }
        },
    }
    let ghost s2 = s1 + len_bytes;
    assert(hasher@ == fnv1a(start, s2));
    let ghost body = contents_stream(record.contents);
    match &record.contents {
        Some(contents) => {
            hasher.write(contents.as_slice());
            proof {
                assert(contents@ == body);
                lemma_fnv1a_concat(start, s2, contents@);
            }
        },
        None => {
            proof {
                assert(s2 + body =~= s2);
            }
        },
    }
    let ghost s3 = s2 + body;
    assert(hasher@ == fnv1a(start, s3));
    let end = vec![0xffu8];
    hasher.write(end.as_slice());
    proof {
        assert(end@ =~= seq![0xffu8]);
        lemma_fnv1a_concat(start, s3, seq![0xffu8]);
        assert(s3 + seq![0xffu8] == record_stream(*record));
    }
}

/// The FNV-1a 64-bit hash of a list of files, taken in the given order.
pub fn fingerprint_records(records: &[FileRecord]) -> (digest: u64)
    ensures
        digest == fnv1a(FNV_OFFSET_BASIS, records_stream(records@)),
{
    let mut hasher = Fnv1a64::new();
    let mut i: usize = 0;
    while i < records.len()
        invariant
            i <= records@.len(),
            hasher@ == fnv1a(FNV_OFFSET_BASIS, records_stream(records@.take(i as int))),
        decreases records@.len() - i,
    {
        let ghost before = hasher@;
        write_record(&mut hasher, &records[i]);
        proof {
            assert(records@.take(i + 1).drop_last() =~= records@.take(i as int));
            lemma_fnv1a_concat(
                FNV_OFFSET_BASIS,
                records_stream(records@.take(i as int)),
                record_stream(records@[i as int]),
            );
        }
        i += 1;
    }
    proof {
        assert(records@.take(records@.len() as int) =~= records@);
    }
    hasher.finish()
}

/// The lowercase hex digit of a value below sixteen.
pub open spec fn hex_digit(v: int) -> char {
    if v < 10 {
        (('0' as int) + v) as char
    } else {
        (('a' as int) + v - 10) as char
    }
}

/// `x` as sixteen lowercase hex digits, most significant first.
pub open spec fn hex16(x: u64) -> Seq<char> {
    Seq::new(16, |i: int| hex_digit((x as int / pow(16, (15 - i) as nat)) % 16))
}

/// Whether `alphabet` holds the sixteen lowercase hex digits in order of value.
pub open spec fn hex_alphabet_matches(alphabet: Seq<char>) -> bool {
    alphabet.len() == 16 && forall|v: int| 0 <= v < 16 ==> #[trigger] alphabet[v] == hex_digit(v)
}

/// A digest as printed in benchmark provenance: sixteen lowercase hex digits.
pub fn fingerprint_hex(digest: u64) -> (text: String)
    ensures
        text@ == hex16(digest),
{
    let alphabet = "0123456789abcdef";
    proof {
        reveal_strlit("0123456789abcdef");
        assert(hex_alphabet_matches(alphabet@));
        assert(is_ascii_chars(alphabet@));
        assert(pow(16, 0) == 1) by {
            reveal(pow);
        }
        assert(digest as int / 1 == digest as int);
    }
    // The digits, least significant first.
    let mut low_first: Vec<usize> = Vec::new();
    let mut rest: u64 = digest;
    let mut k: usize = 0;
    while k < 16
        invariant
            k <= 16,
            low_first@.len() == k,
            rest as int == digest as int / pow(16, k as nat),
            forall|j: int|
                0 <= j < k ==> #[trigger] low_first@[j] as int == (digest as int / pow(16, j as nat))
                    % 16,
        decreases 16 - k,
    {
        proof {
            lemma_pow_positive(16, k as nat);
            lemma_div_denominator(digest as int, pow(16, k as nat), 16);
            assert(pow(16, (k + 1) as nat) == pow(16, k as nat) * 16) by {
                reveal(pow);
            }
        }
        low_first.push((rest % 16) as usize);
        rest = rest / 16;
        k += 1;
    }
    let mut text = String::new();
    let mut i: usize = 0;
    while i < 16
        invariant
            i <= 16,
            low_first@.len() == 16,
            forall|j: int|
                0 <= j < 16 ==> #[trigger] low_first@[j] as int == (digest as int / pow(16, j as nat))
                    % 16,
            hex_alphabet_matches(alphabet@),
            is_ascii_chars(alphabet@),
            text@ == hex16(digest).take(i as int),
        decreases 16 - i,
    {
        let d = low_first[15 - i];
        let digit = alphabet.substring_ascii(d, d + 1);
        proof {
            assert(digit@ =~= seq![hex16(digest)[i as int]]);
            assert(hex16(digest).take(i + 1) =~= hex16(digest).take(i as int) + digit@);
        }
        text.append(digit);
        i += 1;
    }
    proof {
        assert(hex16(digest).take(16) =~= hex16(digest));
    }
    text
}

/// `c` with ASCII upper-case letters mapped to lower case.
pub open spec fn ascii_lower(c: char) -> char {
    if 'A' <= c && c <= 'Z' {
        ((c as int) + 32) as char
    } else {
        c
    }
}

/// Calls `str::to_ascii_lowercase`, which maps 'A' to 'Z' onto 'a' to 'z'
/// and leaves every other character unchanged.
#[verifier::external_body]
fn str_to_ascii_lowercase(s: &str) -> (lower: String)
    ensures
        lower@ == s@.map_values(|c: char| ascii_lower(c)),
{
    s.to_ascii_lowercase()
}

/// Whether a file extension, compared without ASCII case, is one of
/// `extensions`; a file without an extension is never selected.
pub fn extension_selected(extension: Option<&str>, extensions: &[&str]) -> (selected: bool)
    ensures
        selected <==> match extension {
            Some(e) => exists|i: int|
                0 <= i < extensions@.len() && #[trigger] extensions@[i]@ == e@.map_values(
                    |c: char| ascii_lower(c),
                ),
            None => false,
        },
{
    match extension {
        Some(e) => {
            let lower = str_to_ascii_lowercase(e);
            let mut i: usize = 0;
            while i < extensions.len()
                invariant
                    i <= extensions@.len(),
                    extension == Some(e),
                    lower@ == e@.map_values(|c: char| ascii_lower(c)),
                    forall|k: int| 0 <= k < i ==> #[trigger] extensions@[k]@ != lower@,
                decreases extensions@.len() - i,
            {
                let candidate = extensions[i].to_owned();
                if candidate == lower {
                    assert(extensions@[i as int]@ == e@.map_values(|c: char| ascii_lower(c)));
                    return true;
                }
                i += 1;
            }
            false
        },
        None => false,
    }
}

/// A relative path with `\` separators turned into `/`, so that the same
/// tree fingerprints alike on every platform.
pub fn portable_path(path: &str) -> (portable: String)
    ensures
        portable@ == replace_all(path@, seq!['\\'], seq!['/']),
{
    let backslash = "\\";
    let slash = "/";
    proof {
        reveal_strlit("\\");
        reveal_strlit("/");
        assert(backslash@ =~= seq!['\\']);
        assert(slash@ =~= seq!['/']);
    }
    str_replace(path, backslash, slash)
}

} // verus!
