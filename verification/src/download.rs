use vstd::prelude::*;
use vstd::string::{StrSliceExecFns, StringExecFns};

use crate::config::spec_last_slash;
use crate::digest::{is_lower_hex_char, sha256_hex, sha256_of};

verus! {

/// The last path segment of a url, or a fixed fallback when the url
/// has no proper file name.
pub open spec fn spec_url_basename(url: Seq<char>) -> Seq<char> {
    let j = spec_last_slash(url);
    if 0 <= j < url.len() - 1 {
        url.skip(j + 1)
    } else {
        "file.bin"@
    }
}

/// The name a download is cached under: the first 8 hex characters of
/// the url's digest, a dash, and the url's file name.  Downloads are
/// shared across builds, so the name must be a function of the url
/// alone.
pub fn download_cache_name(url: &String) -> (r: String)
    ensures
        r@ == sha256_hex(vstd::utf8::encode_utf8(url@)).take(8) + "-"@ + spec_url_basename(url@),
{
    let hash = sha256_of(url.as_str().as_bytes());
    proof {
        assert forall|i: int| 0 <= i < hash@.len() implies '\0' <= #[trigger] hash@[i]
            <= '\u{7f}' by {
            assert(is_lower_hex_char(hash@[i]));
        }
        assert(vstd::utf8::is_ascii_chars(hash@));
    }
    let prefix = hash.as_str().substring_ascii(0, 8);
    let n = url.as_str().unicode_len();
    let mut k: usize = n;
    proof {
        assert(url@.take(n as int) =~= url@);
    }
    while k > 0 && url.as_str().get_char(k - 1) != '/'
        invariant
            k <= n,
            n == url@.len(),
            spec_last_slash(url@) == spec_last_slash(url@.take(k as int)),
        decreases k,
    {
        proof {
            assert(url@.take(k as int).last() == url@[k - 1]);
            assert(url@.take(k as int).drop_last() =~= url@.take(k - 1));
        }
        k -= 1;
    }
    let basename = if k > 0 && k < n {
        proof {
            assert(url@.take(k as int).last() == url@[k - 1]);
            assert(spec_last_slash(url@) == k - 1);
        }
        url.as_str().substring_char(k, n).to_owned()
    } else {
        proof {
            if k == 0 {
                assert(url@.take(0).len() == 0);
                assert(spec_last_slash(url@) < 0);
            } else {
                assert(url@.take(k as int).last() == url@[k - 1]);
                assert(spec_last_slash(url@) == k - 1);
            }
        }
        String::from_str("file.bin")
    };
    let r = prefix.to_owned().concat("-").concat(basename.as_str());
    proof {
        assert(r@ =~= sha256_hex(vstd::utf8::encode_utf8(url@)).take(8) + "-"@
            + spec_url_basename(url@));
    }
    r
}

} // verus!
