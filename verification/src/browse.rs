//! What the server answers to a browse request: remote URLs are accepted
//! as they are, local files are named back, directories are searched for
//! media.

use crate::comms::{opt_text, status_code, texts, ControlView, Request, Response, ResponseView, Status};
use vstd::prelude::*;

verus! {

/// The scheme of `input` when it parses as a URL, as `url::Url::parse` and
/// `Url::scheme` give it.
pub uninterp spec fn url_scheme(input: Seq<char>) -> Option<Seq<char>>;

/// Calls `url::Url::parse` and, when it succeeds, `Url::scheme`; the result
/// is named by `url_scheme`.
#[verifier::external_body]
fn parse_scheme(input: &str) -> (r: Option<String>)
    ensures
        opt_text(r) == url_scheme(input@),
{
    match url::Url::parse(input) {
        Ok(url) => Some(url.scheme().to_owned()),
        Err(_) => None,
    }
}

/// Whether a text that parsed with `scheme` (or did not parse, `None`) names
/// a local path: it is no URL, or a `file` URL.
pub open spec fn local_scheme(scheme: Option<Seq<char>>) -> bool {
    match scheme {
        Some(s) => s == "file"@,
        None => true,
    }
}

/// A text that does not parse as a URL names a local path, and one that
/// parses names a local path exactly when its scheme is `file`: every other
/// scheme is remote, and a browse request for it is answered at once.
pub proof fn lemma_local_only_file(scheme: Seq<char>)
    ensures
        local_scheme(None),
        local_scheme(Some(scheme)) <==> scheme == "file"@,
{
}

/// Whether a text that parsed with `scheme` names a local path.
pub fn is_local(scheme: &Option<String>) -> (r: bool)
    ensures
        r == local_scheme(opt_text(*scheme)),
{
    match scheme {
        Some(s) => {
            let file = "file".to_owned();
            *s == file
        },
        None => true,
    }
}

/// The path a request carries, the empty text when it carries none.
pub open spec fn request_path(r: ControlView) -> Seq<char> {
    match r.path {
        Some(p) => p,
        None => Seq::empty(),
    }
}

/// The answer to a browse request for a remote URL, which is accepted as it
/// is; `None` when the request names a local path, which must be looked at.
pub fn browse_remote(request: &Request) -> (r: Option<Response>)
    ensures
        r is None <==> local_scheme(url_scheme(request_path(request@))),
        r matches Some(resp) ==> resp@ == (ResponseView {
            request_id: request.id,
            status: status_code(Status::Success),
            payload: Seq::empty(),
        }),
{
    let path = request.path();
    let scheme = parse_scheme(path);
    if is_local(&scheme) {
        None
    } else {
        Some(Response::success(request))
    }
}

/// What a local path turned out to be.
#[derive(Clone, Copy, Debug, PartialEq, Eq, Structural)]
pub enum PathKind {
    /// Nothing is there.
    Missing,
    /// A file.
    File,
    /// A directory.
    Directory,
    /// Something else, such as a broken link.
    Other,
}

/// The elements of `xs` that `keep` holds, in order.
pub open spec fn kept(xs: Seq<Seq<char>>, keep: Seq<Seq<char>>) -> Seq<Seq<char>>
    decreases xs.len(),
{
    if xs.len() == 0 {
        Seq::empty()
    } else if keep.contains(xs.last()) {
        kept(xs.drop_last(), keep).push(xs.last())
    } else {
        kept(xs.drop_last(), keep)
    }
}

/// Every element kept is one of the list's and one that is to be kept, and
/// every element of the list that is to be kept is kept.
pub proof fn lemma_kept(xs: Seq<Seq<char>>, keep: Seq<Seq<char>>)
    ensures
        forall|x: Seq<char>| kept(xs, keep).contains(x) <==> xs.contains(x) && keep.contains(x),
    decreases xs.len(),
{
    if xs.len() > 0 {
        let init = xs.drop_last();
        lemma_kept(init, keep);
        let k0 = kept(init, keep);
        assert forall|x: Seq<char>| kept(xs, keep).contains(x) <==> xs.contains(x) && keep.contains(x) by {
            if xs.contains(x) {
                let k = choose|k: int| 0 <= k < xs.len() && xs[k] == x;
                if k < xs.len() - 1 {
                    assert(init[k] == x);
                }
            }
            if init.contains(x) {
                let k = choose|k: int| 0 <= k < init.len() && init[k] == x;
                assert(xs[k] == x);
            }
            if keep.contains(xs.last()) {
                let e = k0.push(xs.last());
                if e.contains(x) {
                    let k = choose|k: int| 0 <= k < e.len() && e[k] == x;
                    if k < k0.len() {
                        assert(k0[k] == x);
                    }
                }
                if k0.contains(x) {
                    let k = choose|k: int| 0 <= k < k0.len() && k0[k] == x;
                    assert(e[k] == x);
                }
                assert(e[e.len() - 1] == xs.last());
                assert(xs[xs.len() - 1] == xs.last());
            }
        }
    }
}

/// What is kept is the list filtered by membership in `keep`: every element
/// of the list that is to be kept stays, as often as it occurs and in its
/// order, and nothing else.
pub proof fn lemma_kept_is_filter(xs: Seq<Seq<char>>, keep: Seq<Seq<char>>)
    ensures
        kept(xs, keep) == xs.filter(|x: Seq<char>| keep.contains(x)),
    decreases xs.len(),
{
    reveal(Seq::filter);
    if xs.len() > 0 {
        lemma_kept_is_filter(xs.drop_last(), keep);
    }
}

/// The elements of `xs` that `keep` holds, in order.
pub fn keep_supported(xs: &Vec<String>, keep: &Vec<String>) -> (r: Vec<String>)
    ensures
        texts(r@) == kept(texts(xs@), texts(keep@)),
{
    let mut out: Vec<String> = Vec::new();
    let mut i: usize = 0;
    while i < xs.len()
        invariant
            i <= xs@.len(),
            texts(out@) == kept(texts(xs@).take(i as int), texts(keep@)),
        decreases xs@.len() - i,
    {
        let x = &xs[i];
        let mut found = false;
        let mut j: usize = 0;
        while j < keep.len()
            invariant
                j <= keep@.len(),
                found <==> exists|k: int| 0 <= k < j && keep@[k]@ == x@,
            decreases keep@.len() - j,
        {
            if keep[j] == *x {
                found = true;
            }
            j = j + 1;
        }
        proof {
            if found {
                let k = choose|k: int| 0 <= k < j && keep@[k]@ == x@;
                assert(texts(keep@)[k] == x@);
            } else {
                assert forall|k: int| 0 <= k < texts(keep@).len() implies texts(keep@)[k] != x@ by {
                    assert(keep@[k]@ == texts(keep@)[k]);
                }
            }
            assert(texts(xs@).take(i + 1).drop_last() =~= texts(xs@).take(i as int));
            assert(texts(xs@).take(i + 1).last() == x@);
        }
        if found {
            let ghost before = out@;
            out.push(x.clone());
            assert(texts(out@) =~= texts(before).push(x@));
        }
        i = i + 1;
    }
    assert(texts(xs@).take(i as int) =~= texts(xs@));
    out
}

/// The answer to a browse request for a local path: an error when nothing
/// is there or it is neither file nor directory, the path itself for a file,
/// and for a directory the extensions found under it that the server plays.
pub fn browse_local(
    request: &Request,
    kind: PathKind,
    extensions: &Vec<String>,
    supported: &Vec<String>,
) -> (r: Response)
    ensures
        r.request_id == request.id,
        r@.status == status_code(match kind {
            PathKind::Missing => Status::Error,
            PathKind::Other => Status::Error,
            _ => Status::Success,
        }),
        r@.payload == (match kind {
            PathKind::Missing => seq!["URL or path does not exist"@],
            PathKind::File => seq![request_path(request@)],
            PathKind::Directory => kept(texts(extensions@), texts(supported@)),
            PathKind::Other => seq!["Unhandled path or url"@],
        }),
{
    match kind {
        PathKind::Missing => Response::error(request, "URL or path does not exist".to_owned()),
        PathKind::File => {
            let mut payload = Vec::new();
            payload.push(request.path().to_owned());
            assert(texts(payload@) =~= seq![request_path(request@)]);
            Response::success(request).with_payload(payload)
        },
        PathKind::Directory => Response::success(request).with_payload(
            keep_supported(extensions, supported),
        ),
        PathKind::Other => Response::error(request, "Unhandled path or url".to_owned()),
    }
}

} // verus!
