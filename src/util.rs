use vstd::prelude::*;
use vstd::string::StringExecFns;
use rand::Rng;
use crate::model::FileDefinition;

verus! {

/// Directory under which content blobs are stored.
pub const BASE_PATH: &'static str = "storage";

/// The lowercase hexadecimal MD5 digest of a byte sequence.
pub uninterp spec fn md5_hex(content: Seq<u8>) -> Seq<char>;

/// Characters that a generated id is made of.
pub open spec fn is_alphanumeric(c: char) -> bool {
    ('A' <= c && c <= 'Z') || ('a' <= c && c <= 'z') || ('0' <= c && c <= '9')
}

/// Length of a generated id.
pub const ID_LEN: usize = 16;

/// Relies on md5::compute and the `LowerHex` impl of md5::Digest: the digest
/// depends on the bytes alone and is printed as two hex digits per byte of its
/// sixteen.
#[verifier::external_body]
fn md5_digest_hex(content: &Vec<u8>) -> (r: String)
    ensures
        r@ == md5_hex(content@),
        r@.len() == 32,
{
    format!("{:x}", md5::compute(content))
}

/// Relies on rand::thread_rng sampled with rand::distributions::Alphanumeric:
/// every character drawn is an ASCII letter or digit.
#[verifier::external_body]
fn random_alphanumeric(n: usize) -> (r: String)
    ensures
        r@.len() == n,
        forall|i: int| 0 <= i < r@.len() ==> is_alphanumeric(#[trigger] r@[i]),
{
    rand::thread_rng().sample_iter(&rand::distributions::Alphanumeric).take(n).map(char::from).collect()
}

/// Relies on str::rsplit_once: splits around the last occurrence of the
/// delimiter.
#[verifier::external_body]
fn split_last_slash(s: &str) -> (r: Option<(String, String)>)
    ensures
        r is Some <==> s@.contains('/'),
        r matches Some((a, b)) ==> s@ == a@ + seq!['/'] + b@ && !b@.contains('/'),
{
    match s.rsplit_once('/') {
        Some((a, b)) => Some((a.to_string(), b.to_string())),
        None => None,
    }
}

pub struct Util;

impl Util {
    /// Storage location of a file's content: its id under the base directory.
    pub fn full_path(file_def: &FileDefinition) -> (r: String)
        requires
            file_def.id is Some,
        ensures
            r@ == BASE_PATH@ + seq!['/'] + file_def.id.unwrap()@,
    {
        let id = file_def.id.as_ref().unwrap();
        let p = String::from_str(BASE_PATH).concat("/");
        proof {
            reveal_strlit("/");
        }
        p.concat(id.as_str())
    }

    /// Splits `dir/name` into its directory and its file name, at the last `/`.
    /// Without a `/` the directory is empty.
    pub fn split_full_path(full_path: &str) -> (r: (String, String))
        ensures
            full_path@.contains('/') ==> full_path@ == r.0@ + seq!['/'] + r.1@ && !r.1@.contains('/'),
            !full_path@.contains('/') ==> r.0@ == Seq::<char>::empty() && r.1@ == full_path@,
    {
        match split_last_slash(full_path) {
            Some(parts) => parts,
            None => (String::new(), full_path.to_owned()),
        }
    }

    /// Lowercase hexadecimal MD5 digest of the content.
    pub fn checksum(content: &Vec<u8>) -> (r: String)
        ensures
            r@ == md5_hex(content@),
            r@.len() == 32,
    {
        md5_digest_hex(content)
    }

    /// A fresh random id of sixteen ASCII letters and digits.
    pub fn new_id() -> (r: String)
        ensures
            r@.len() == ID_LEN,
            forall|i: int| 0 <= i < r@.len() ==> is_alphanumeric(#[trigger] r@[i]),
    {
        random_alphanumeric(ID_LEN)
    }
}

} // verus!
