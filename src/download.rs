//! Decisions about the downloaded archive: the file name that the response
//! suggests, where it is written, whether the transfer was whole, and whether
//! it is unpacked into a directory.

use crate::text::{chars_of, opt_view, string_of_range};
use vstd::prelude::*;

verus! {

/// Where the archive is written when neither the caller nor the response
/// names a place.
pub const FALLBACK_PATH: &'static str = "./spring-app.zip";

/// The characters that introduce the file name in a `content-disposition`
/// header.
pub open spec fn filename_key() -> Seq<char> {
    seq!['f', 'i', 'l', 'e', 'n', 'a', 'm', 'e', '=']
}

/// Whether `pat` occurs in `s` at position `i`.
pub open spec fn occurs_at(s: Seq<char>, pat: Seq<char>, i: int) -> bool {
    0 <= i && i + pat.len() <= s.len() && s.subrange(i, i + pat.len()) == pat
}

/// The first position, from `i` on, at which `pat` occurs in `s`.
pub open spec fn first_occurrence(s: Seq<char>, pat: Seq<char>, i: int) -> Option<int>
    decreases s.len() + 1 - i,
{
    if i < 0 || i + pat.len() > s.len() {
        None
    } else if occurs_at(s, pat, i) {
        Some(i)
    } else {
        first_occurrence(s, pat, i + 1)
    }
}

/// The first position, from `i` on, that holds `c`.
pub open spec fn first_char(s: Seq<char>, c: char, i: int) -> Option<int>
    decreases s.len() - i,
{
    if i < 0 || i >= s.len() {
        None
    } else if s[i] == c {
        Some(i)
    } else {
        first_char(s, c, i + 1)
    }
}

/// The file name that a `content-disposition` value suggests: the non-empty
/// text between the double quotes that directly follow the first
/// `filename=`.
pub open spec fn suggested_name(h: Seq<char>) -> Option<Seq<char>> {
    match first_occurrence(h, filename_key(), 0) {
        None => None,
        Some(k) => {
            let open = k + filename_key().len();
            if open < h.len() && h[open] == '"' {
                match first_char(h, '"', open + 1) {
                    Some(close) => if close > open + 1 {
                        Some(h.subrange(open + 1, close))
                    } else {
                        None
                    },
                    None => None,
                }
            } else {
                None
            }
        },
    }
}

proof fn lemma_first_occurrence_found(s: Seq<char>, pat: Seq<char>, i: int)
    ensures
        first_occurrence(s, pat, i) matches Some(k) ==> i <= k && occurs_at(s, pat, k),
    decreases s.len() + 1 - i,
{
    if 0 <= i && i + pat.len() <= s.len() && !occurs_at(s, pat, i) {
        lemma_first_occurrence_found(s, pat, i + 1);
    }
}

proof fn lemma_first_char_found(s: Seq<char>, c: char, i: int)
    ensures
        first_char(s, c, i) matches Some(k) ==> i <= k < s.len() && s[k] == c,
    decreases s.len() - i,
{
    if 0 <= i < s.len() && s[i] != c {
        lemma_first_char_found(s, c, i + 1);
    }
}

fn occurs_in_at(cs: &Vec<char>, pat: &Vec<char>, i: usize) -> (r: bool)
    requires
        i + pat@.len() <= cs@.len(),
    ensures
        r == occurs_at(cs@, pat@, i as int),
{
    let m = pat.len();
    let n = cs.len();
    let mut j: usize = 0;
    while j < m
        invariant
            0 <= j <= m == pat@.len(),
            n == cs@.len(),
            i + m <= n,
            forall|k: int| 0 <= k < j ==> cs@[i + k] == pat@[k],
        decreases m - j,
    {
        if cs[i + j] != pat[j] {
            assert(cs@.subrange(i as int, i + m)[j as int] != pat@[j as int]);
            return false;
        }
        j = j + 1;
    }
    assert(cs@.subrange(i as int, i + m) =~= pat@);
    true
}

fn find_occurrence(cs: &Vec<char>, pat: &Vec<char>) -> (r: Option<usize>)
    ensures
        match r {
            Some(k) => first_occurrence(cs@, pat@, 0) == Some(k as int),
            None => first_occurrence(cs@, pat@, 0) is None,
        },
{
    let n = cs.len();
    let m = pat.len();
    if m > n {
        return None;
    }
    let last = n - m;
    let mut i: usize = 0;
    while i <= last
        invariant
            n == cs@.len(),
            m == pat@.len(),
            last + m == n,
            i <= last,
            first_occurrence(cs@, pat@, 0) == first_occurrence(cs@, pat@, i as int),
        decreases last + 1 - i,
    {
        if occurs_in_at(cs, pat, i) {
            return Some(i);
        }
        if i == last {
            return None;
        }
        i = i + 1;
    }
    None
}

fn find_char(cs: &Vec<char>, c: char, from: usize) -> (r: Option<usize>)
    ensures
        match r {
            Some(k) => first_char(cs@, c, from as int) == Some(k as int),
            None => first_char(cs@, c, from as int) is None,
        },
{
    let n = cs.len();
    let mut i: usize = from;
    while i < n
        invariant
            from <= i,
            n == cs@.len(),
            first_char(cs@, c, from as int) == first_char(cs@, c, i as int),
        decreases n - i,
    {
        if cs[i] == c {
            return Some(i);
        }
        i = i + 1;
    }
    None
}

/// Reads the file name that a `content-disposition` header value suggests:
/// the quoted text after `filename=`. A value without it, or with it
/// unquoted or empty, suggests none.
pub fn filename_from_disposition(header: &str) -> (r: Option<String>)
    ensures
        opt_view(r) == suggested_name(header@),
{
    let cs = chars_of(header);
    let pat = vec!['f', 'i', 'l', 'e', 'n', 'a', 'm', 'e', '='];
    assert(pat@ =~= filename_key());
    let n = cs.len();
    let m = pat.len();
    let k = match find_occurrence(&cs, &pat) {
        Some(k) => k,
        None => return None,
    };
    proof {
        lemma_first_occurrence_found(cs@, pat@, 0);
    }
    let open = k + m;
    if open >= n || cs[open] != '"' {
        return None;
    }
    let close = match find_char(&cs, '"', open + 1) {
        Some(c) => c,
        None => return None,
    };
    proof {
        lemma_first_char_found(cs@, '"', open + 1);
    }
    if close == open + 1 {
        return None;
    }
    Some(string_of_range(&cs, open + 1, close))
}

/// Where the archive is written: the place the caller named, else the file
/// name that the response suggested, in the current directory, else the
/// fallback path.
pub open spec fn destination_of(explicit: Option<Seq<char>>, suggested: Option<Seq<char>>) -> Seq<
    char,
> {
    match explicit {
        Some(p) => p,
        None => match suggested {
            Some(name) => seq!['.', '/'] + name,
            None => FALLBACK_PATH@,
        },
    }
}

/// Chooses where the archive is written.
pub fn choose_destination(explicit: Option<String>, suggested: Option<String>) -> (r: String)
    ensures
        r@ == destination_of(opt_view(explicit), opt_view(suggested)),
{
    match explicit {
        Some(p) => p,
        None => match suggested {
            Some(name) => {
                let r = String::from_str("./").concat(name.as_str());
                proof {
                    reveal_strlit("./");
                }
                assert(r@ =~= seq!['.', '/'] + name@);
                r
            },
            None => String::from_str(FALLBACK_PATH),
        },
    }
}

/// Why a download is refused.
#[derive(Debug, Clone, Copy, PartialEq, Eq, Structural)]
pub enum TransferError {
    /// Fewer or more bytes arrived than the response declared.
    IncompleteTransfer { declared: u64, received: u64 },
}

/// The outcome of a transfer: refused exactly when the response declared a
/// length and a different number of bytes arrived.
pub open spec fn transfer_outcome(declared: Option<u64>, received: u64) -> Result<(), TransferError> {
    match declared {
        Some(d) => if d == received {
            Ok(())
        } else {
            Err(TransferError::IncompleteTransfer { declared: d, received })
        },
        None => Ok(()),
    }
}

/// Checks the number of bytes received against the length that the response
/// declared, if it declared one.
pub fn check_transfer(declared: Option<u64>, received: u64) -> (r: Result<(), TransferError>)
    ensures
        r == transfer_outcome(declared, received),
{
    match declared {
        Some(d) => if d == received {
            Ok(())
        } else {
            Err(TransferError::IncompleteTransfer { declared: d, received })
        },
        None => Ok(()),
    }
}

/// Whether bytes read as a zip archive; the answer depends on the bytes alone.
pub uninterp spec fn is_zip_archive(bytes: Seq<u8>) -> bool;

/// Relies on `zip::ZipArchive::new` over an in-memory cursor: it succeeds
/// exactly when the bytes read as a zip archive.
#[verifier::external_body]
fn reads_as_zip(bytes: &[u8]) -> (r: bool)
    ensures
        r == is_zip_archive(bytes@),
{
    zip::ZipArchive::new(std::io::Cursor::new(bytes)).is_ok()
}

/// Whether the file name of a path has an extension; the answer depends on
/// the path alone.
pub uninterp spec fn has_extension(path: Seq<char>) -> bool;

/// Relies on `std::path::Path::extension`: it is `Some` exactly when the
/// path's file name has an extension.
#[verifier::external_body]
fn path_has_extension(path: &str) -> (r: bool)
    ensures
        r == has_extension(path@),
{
    std::path::Path::new(path).extension().is_some()
}

/// Whether the downloaded bytes are unpacked into a directory at `path`
/// rather than written to it as one file: the path has no extension and the
/// bytes are a zip archive.
pub fn extract_as_directory(path: &str, bytes: &[u8]) -> (r: bool)
    ensures
        r == (!has_extension(path@) && is_zip_archive(bytes@)),
{
    !path_has_extension(path) && reads_as_zip(bytes)
}

} // verus!
