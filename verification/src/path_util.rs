use vstd::prelude::*;
use vstd::string::StrSliceExecFns;

use crate::context::abs_path;

verus! {

/// Strip the leading slash from an absolute path.
pub fn rel(path: &String) -> (r: String)
    requires
        abs_path(path@),
    ensures
        r@ == path@.skip(1),
{
    let n = path.as_str().unicode_len();
    path.as_str().substring_char(1, n).to_owned()
}

/// The remainder of `path` under the directory `base`, when `path` lies
/// below it: `base` must be a strict prefix followed by a slash, or the
/// whole of `path`.
pub fn rel_to(path: &String, base: &String) -> (r: Option<String>)
    ensures
        match r {
            Some(s) => path@.len() >= base@.len() && path@.take(base@.len() as int) == base@ && (
            path@.len() == base@.len() || path@[base@.len() as int] == '/') && s@ == (
            if path@.len() == base@.len() {
                Seq::<char>::empty()
            } else {
                path@.skip(base@.len() as int + 1)
            }),
            None => !(path@.len() >= base@.len() && path@.take(base@.len() as int) == base@ && (
            path@.len() == base@.len() || path@[base@.len() as int] == '/')),
        },
{
    let pn = path.as_str().unicode_len();
    let bn = base.as_str().unicode_len();
    if pn < bn {
        return None;
    }
    let head = path.as_str().substring_char(0, bn).to_owned();
    if !head.eq(base) {
        return None;
    }
    if pn == bn {
        let r = String::new();
        proof {
            assert(r@ =~= Seq::<char>::empty());
        }
        return Some(r);
    }
    if path.as_str().get_char(bn) != '/' {
        return None;
    }
    Some(path.as_str().substring_char(bn + 1, pn).to_owned())
}

} // verus!
