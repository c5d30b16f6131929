use vstd::prelude::*;

verus! {

use crate::UploadError;
use crate::text::{
    find_char, find_char_at, has_prefix, lemma_find_char_bounds, lemma_rfind_char_bounds,
    rfind_char, rfind_char_at, str_has_prefix,
};
use vstd::string::{StrSliceExecFns, StringExecFns};

/// The URL carries the storage scheme prefix.
pub open spec fn scheme_ok(url: Seq<char>) -> bool {
    has_prefix(url, "s3://"@)
}

/// Where the bucket name ends: the first separator after the scheme,
/// or the end of the URL.
pub open spec fn bucket_end(url: Seq<char>) -> int {
    find_char(url, '/', 5)
}

/// The first path segment after the scheme.
pub open spec fn bucket_of(url: Seq<char>) -> Seq<char>
    recommends
        scheme_ok(url),
{
    url.subrange(5, bucket_end(url))
}

/// Everything after the bucket's separator; empty when the URL stops at
/// the bucket.
pub open spec fn key_of(url: Seq<char>) -> Seq<char>
    recommends
        scheme_ok(url),
{
    if bucket_end(url) < url.len() {
        url.subrange(bucket_end(url) + 1, url.len() as int)
    } else {
        Seq::empty()
    }
}

/// A usable remote URL: the scheme prefix followed by a non-empty
/// bucket name.
pub open spec fn valid_s3_url(url: Seq<char>) -> bool {
    scheme_ok(url) && bucket_of(url).len() > 0
}

/// Splits a storage URL into bucket and key: the first path segment
/// after the scheme is the bucket, everything after it is the key. A
/// URL without the scheme prefix or without a bucket is rejected.
pub fn parse_s3_url(url: &str) -> (r: Result<(String, String), UploadError>)
    ensures
        r is Ok <==> valid_s3_url(url@),
        r is Err ==> r->Err_0 == UploadError::InvalidRemoteUrl,
        r is Ok ==> r->Ok_0.0@ == bucket_of(url@) && r->Ok_0.1@ == key_of(url@),
{
    proof {
        reveal_strlit("s3://");
    }
    if !str_has_prefix(url, "s3://") {
        return Err(UploadError::InvalidRemoteUrl);
    }
    let n = url.unicode_len();
    proof {
        lemma_find_char_bounds(url@, '/', 5);
    }
    let b_end = find_char_at(url, '/', 5);
    if b_end == 5 {
        return Err(UploadError::InvalidRemoteUrl);
    }
    let bucket = url.substring_char(5, b_end).to_owned();
    let key = if b_end < n {
        url.substring_char(b_end + 1, n).to_owned()
    } else {
        String::new()
    };
    Ok((bucket, key))
}

/// The file name at the end of a path: everything after the last
/// separator.
pub open spec fn base_name(path: Seq<char>) -> Seq<char> {
    path.subrange(rfind_char(path, '/') + 1, path.len() as int)
}

/// The key names a directory: it is empty or ends with the separator.
pub open spec fn dir_like(key: Seq<char>) -> bool {
    key.len() == 0 || key[key.len() - 1] == '/'
}

/// The object key a transfer writes to: a directory-like key has the
/// source file's base name appended, any other key is taken verbatim.
pub open spec fn resolved_key(src: Seq<char>, key: Seq<char>) -> Seq<char> {
    if dir_like(key) {
        key + base_name(src)
    } else {
        key
    }
}

/// Resolves a source path and a target URL into the bucket and the full
/// object key: the URL is split as in [`parse_s3_url`], and a key that
/// names a directory gains the source file's base name, so that the key
/// is never empty. A source path with an empty base name cannot name a
/// regular file and is rejected.
pub fn path_deal(src: &str, target: &str) -> (r: Result<(String, String), UploadError>)
    ensures
        r is Ok <==> valid_s3_url(target@) && (dir_like(key_of(target@)) ==> base_name(
            src@,
        ).len() > 0),
        !valid_s3_url(target@) ==> r is Err && r->Err_0 == UploadError::InvalidRemoteUrl,
        valid_s3_url(target@) && dir_like(key_of(target@)) && base_name(src@).len() == 0 ==> r
            is Err && r->Err_0 == UploadError::InvalidSource,
        r is Ok ==> r->Ok_0.0@ == bucket_of(target@) && r->Ok_0.1@ == resolved_key(
            src@,
            key_of(target@),
        ),
{
    let parsed = match parse_s3_url(target) {
        Ok(t) => t,
        Err(e) => {
            return Err(e);
        },
    };
    let bucket = parsed.0;
    let key = parsed.1;
    let klen = key.as_str().unicode_len();
    let dir = klen == 0 || key.as_str().get_char(klen - 1) == '/';
    if dir {
        proof {
            lemma_rfind_char_bounds(src@, '/');
        }
        let sn = src.unicode_len();
        let from = match rfind_char_at(src, '/') {
            Some(i) => i + 1,
            None => 0,
        };
        let base = src.substring_char(from, sn);
        if base.unicode_len() == 0 {
            return Err(UploadError::InvalidSource);
        }
        let joined = key.concat(base);
        Ok((bucket, joined))
    } else {
        Ok((bucket, key))
    }
}

} // verus!
