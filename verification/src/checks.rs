//! Identity checks on a submitted file: content hash, size, a valid file
//! name, and a MIME type guess. The submission boundary runs these before a
//! job record is created.

use vstd::prelude::*;
use sha2::Digest;

verus! {

/// What checking a file's name can reject: the path names no usable file —
/// it is empty, ends in a separator, or its last component is `.` or `..`.
#[derive(Clone, Copy, Debug, PartialEq, Eq, Structural)]
pub enum FileCheckError {
    NoFileName,
}

/// The SHA-256 digest of these bytes, a function of the bytes alone.
pub uninterp spec fn spec_sha256(data: Seq<u8>) -> Seq<u8>;

/// The MIME essence (`type/subtype`) guessed from this path's extension,
/// a function of the path alone.
pub uninterp spec fn spec_mime_essence(path: Seq<char>) -> Seq<char>;

/// The lowercase hex digit for a value below 16.
pub open spec fn spec_hex_char(n: int) -> char {
    if n == 0 {
        '0'
    } else if n == 1 {
        '1'
    } else if n == 2 {
        '2'
    } else if n == 3 {
        '3'
    } else if n == 4 {
        '4'
    } else if n == 5 {
        '5'
    } else if n == 6 {
        '6'
    } else if n == 7 {
        '7'
    } else if n == 8 {
        '8'
    } else if n == 9 {
        '9'
    } else if n == 10 {
        'a'
    } else if n == 11 {
        'b'
    } else if n == 12 {
        'c'
    } else if n == 13 {
        'd'
    } else if n == 14 {
        'e'
    } else {
        'f'
    }
}

/// The lowercase hex encoding of these bytes: two digits per byte, high
/// nibble first.
pub open spec fn spec_hex(data: Seq<u8>) -> Seq<char>
    decreases data.len(),
{
    if data.len() == 0 {
        Seq::empty()
    } else {
        spec_hex(data.drop_last()) + seq![
            spec_hex_char((data.last() >> 4) as int),
            spec_hex_char((data.last() & 0x0f) as int),
        ]
    }
}

/// The suffix of the path after its last `/`; empty when the path is empty
/// or ends in `/`.
pub open spec fn spec_basename(path: Seq<char>) -> Seq<char>
    decreases path.len(),
{
    if path.len() == 0 {
        Seq::empty()
    } else if path.last() == '/' {
        Seq::empty()
    } else {
        spec_basename(path.drop_last()).push(path.last())
    }
}

/// The file name this path names, if any: its last `/`-separated component,
/// unless that component is empty, `.`, or `..`.
pub open spec fn spec_file_name(path: Seq<char>) -> Option<Seq<char>> {
    let base = spec_basename(path);
    if base.len() == 0 || base == "."@ || base == ".."@ {
        None
    } else {
        Some(base)
    }
}

/// Relies on `String::push`: appends exactly the one character.
pub assume_specification [ String::push ](s: &mut String, ch: char)
    ensures
        final(s)@ == old(s)@.push(ch),
;

/// Relies on `sha2::Sha256` (via the `Digest` trait): the SHA-256 digest of
/// the input bytes, a function of the bytes alone, always 32 bytes long.
#[verifier::external_body]
fn sha256_digest(data: &[u8]) -> (r: Vec<u8>)
    ensures
        r@ == spec_sha256(data@),
        r@.len() == 32,
{
    sha2::Sha256::digest(data).to_vec()
}

/// Relies on `mime_guess::from_path` and `first_or_octet_stream`: the MIME
/// essence guessed from the path's extension, `application/octet-stream`
/// when nothing matches; a function of the path alone.
#[verifier::external_body]
fn guess_mime_essence(path: &str) -> (r: String)
    ensures
        r@ == spec_mime_essence(path@),
{
    mime_guess::from_path(path).first_or_octet_stream().essence_str().to_owned()
}

/// The lowercase hex digit for a value below 16.
fn hex_char(n: u8) -> (r: char)
    requires
        n < 16,
    ensures
        r == spec_hex_char(n as int),
{
    if n == 0 {
        '0'
    } else if n == 1 {
        '1'
    } else if n == 2 {
        '2'
    } else if n == 3 {
        '3'
    } else if n == 4 {
        '4'
    } else if n == 5 {
        '5'
    } else if n == 6 {
        '6'
    } else if n == 7 {
        '7'
    } else if n == 8 {
        '8'
    } else if n == 9 {
        '9'
    } else if n == 10 {
        'a'
    } else if n == 11 {
        'b'
    } else if n == 12 {
        'c'
    } else if n == 13 {
        'd'
    } else if n == 14 {
        'e'
    } else {
        'f'
    }
}

/// Encodes bytes as lowercase hex, two digits per byte, high nibble first.
pub fn hex_lower(data: &[u8]) -> (r: String)
    ensures
        r@ == spec_hex(data@),
{
    let n = data.len();
    let mut r = String::new();
    proof {
        assert(data@.take(0) =~= Seq::<u8>::empty());
    }
    let mut i: usize = 0;
    while i < n
        invariant
            i <= n,
            n == data@.len(),
            r@ == spec_hex(data@.take(i as int)),
        decreases n - i,
    {
        let b = data[i];
        let hi = b >> 4;
        let lo = b & 0x0f;
        proof {
            assert(b >> 4 < 16 && b & 0x0f < 16) by (bit_vector);
        }
        r.push(hex_char(hi));
        r.push(hex_char(lo));
        proof {
            assert(data@.take(i as int + 1).drop_last() =~= data@.take(i as int));
            assert(data@.take(i as int + 1).last() == data@[i as int]);
            assert(r@ =~= spec_hex(data@.take(i as int + 1)));
        }
        i = i + 1;
    }
    proof {
        assert(data@.take(n as int) =~= data@);
    }
    r
}

/// When nothing at or after position `b` is a `/` and position `b` is
/// either the start or just after a `/`, the basename is the suffix at `b`.
proof fn lemma_basename_from(path: Seq<char>, b: int)
    requires
        0 <= b <= path.len(),
        forall|m: int| b <= m < path.len() ==> path[m] != '/',
        b > 0 ==> path[b - 1] == '/',
    ensures
        spec_basename(path) == path.skip(b),
    decreases path.len(),
{
    if path.len() == 0 {
        assert(path.skip(b) =~= path);
    } else if b == path.len() {
        assert(path.last() == path[b - 1]);
        assert(path.skip(b) =~= Seq::<char>::empty());
    } else {
        assert(path.last() == path[path.len() - 1]);
        assert(path.last() != '/');
        lemma_basename_from(path.drop_last(), b);
        assert(path.skip(b) =~= path.drop_last().skip(b).push(path.last()));
    }
}

/// A file submitted for analysis, named by its path.
pub struct FileInfo {
    /// The path the file was submitted under.
    pub path: String,
}

/// The identity checks run on a submitted file. The content is handed in as
/// bytes; reading it off disk is the caller's concern.
pub trait FileChecks {
    /// The path the checks look at.
    spec fn checked_path(&self) -> Seq<char>;

    /// The file's SHA-256 content hash, as lowercase hex.
    fn check_hash(&self, content: &[u8]) -> (r: String)
        ensures
            r@ == spec_hex(spec_sha256(content@)),
    ;

    /// The file's size in bytes.
    fn check_size(&self, content: &[u8]) -> (r: u64)
        ensures
            r == content@.len(),
    ;

    /// Accepts the path exactly when it names a usable file.
    fn check_name(&self) -> (r: Result<(), FileCheckError>)
        ensures
            r is Ok <==> spec_file_name(self.checked_path()) is Some,
    ;

    /// The MIME type guessed from the path.
    fn check_type(&self) -> (r: String)
        ensures
            r@ == spec_mime_essence(self.checked_path()),
    ;
}

impl FileChecks for FileInfo {
    open spec fn checked_path(&self) -> Seq<char> {
        self.path@
    }

    fn check_hash(&self, content: &[u8]) -> (r: String)
        ensures
            r@ == spec_hex(spec_sha256(content@)),
    {
        let digest = sha256_digest(content);
        hex_lower(digest.as_slice())
    }

    fn check_size(&self, content: &[u8]) -> (r: u64)
        ensures
            r == content@.len(),
    {
        content.len() as u64
    }

    fn check_name(&self) -> (r: Result<(), FileCheckError>)
        ensures
            r is Ok <==> spec_file_name(self.checked_path()) is Some,
    {
        let s = self.path.as_str();
        let n = s.unicode_len();
        let mut base_start: usize = 0;
        let mut i: usize = 0;
        while i < n
            invariant
                i <= n,
                n == s@.len(),
                base_start <= i,
                forall|m: int| base_start <= m < i ==> s@[m] != '/',
                base_start > 0 ==> s@[base_start - 1] == '/',
            decreases n - i,
        {
            if s.get_char(i) == '/' {
                base_start = i + 1;
            }
            i = i + 1;
        }
        proof {
            lemma_basename_from(s@, base_start as int);
            reveal_strlit(".");
            reveal_strlit("..");
            assert(("."@).len() == 1);
            assert((".."@).len() == 2);
            assert(("."@)[0] == '.');
            assert((".."@)[0] == '.');
            assert((".."@)[1] == '.');
        }
        let ghost base = spec_basename(self.path@);
        let name_len = n - base_start;
        if name_len == 0 {
            proof {
                assert(base.len() == 0);
            }
            Err(FileCheckError::NoFileName)
        } else if name_len == 1 && s.get_char(base_start) == '.' {
            proof {
                assert(base[0] == s@[base_start as int]);
                assert(base =~= "."@);
            }
            Err(FileCheckError::NoFileName)
        } else if name_len == 2 && s.get_char(base_start) == '.' && s.get_char(base_start + 1)
            == '.' {
            proof {
                assert(base[0] == s@[base_start as int]);
                assert(base[1] == s@[base_start as int + 1]);
                assert(base =~= ".."@);
            }
            Err(FileCheckError::NoFileName)
        } else {
            proof {
                assert(base.len() > 0);
                if base.len() == 1 {
                    assert(base[0] == s@[base_start as int]);
                    assert(base != "."@);
                }
                if base.len() == 2 {
                    assert(base[0] == s@[base_start as int]);
                    assert(base[1] == s@[base_start as int + 1]);
                    assert(base != ".."@);
                }
            }
            Ok(())
        }
    }

    fn check_type(&self) -> (r: String)
        ensures
            r@ == spec_mime_essence(self.checked_path()),
    {
        guess_mime_essence(self.path.as_str())
    }
}

} // verus!
