//! Conversions between the validated text of the canonical model and the
//! plain text of the schema versions.
use crate::external_models::{NormalizedString, Uri};
use crate::models::{opt_view, views};
use vstd::prelude::*;

verus! {

/// The plain text of an optional normalized string.
pub fn optional_text(value: Option<NormalizedString>) -> (r: Option<String>)
    ensures
        opt_view(r) == opt_view(value),
{
    match value {
        Some(s) => Some(s.0),
        None => None,
    }
}

/// An optional normalized string from text that was validated before.
pub fn optional_normalized(value: Option<String>) -> (r: Option<NormalizedString>)
    ensures
        opt_view(r) == opt_view(value),
{
    match value {
        Some(s) => Some(NormalizedString::new_unchecked(s)),
        None => None,
    }
}

/// The plain text of an optional URI.
pub fn optional_uri_text(value: Option<Uri>) -> (r: Option<String>)
    ensures
        opt_view(r) == opt_view(value),
{
    match value {
        Some(s) => Some(s.0),
        None => None,
    }
}

/// An optional URI from text that was validated before.
pub fn optional_uri(value: Option<String>) -> (r: Option<Uri>)
    ensures
        opt_view(r) == opt_view(value),
{
    match value {
        Some(s) => Some(Uri(s)),
        None => None,
    }
}

/// The plain text of each URI, in order.
pub fn uri_texts(uris: Vec<Uri>) -> (r: Vec<String>)
    ensures
        views(r@) == views(uris@),
{
    let mut out: Vec<String> = Vec::new();
    let ghost all = uris@;
    for uri in it: uris.into_iter()
        invariant
            it.seq() == all,
            out@.len() == it.index(),
            forall|j: int| 0 <= j < out@.len() ==> (#[trigger] out@[j])@ == all[j]@,
    {
        out.push(uri.0);
    }
    assert(views(out@) =~= views(all));
    out
}

/// A URI from each text, in order; the texts were validated before.
pub fn uris(texts: Vec<String>) -> (r: Vec<Uri>)
    ensures
        views(r@) == views(texts@),
{
    let mut out: Vec<Uri> = Vec::new();
    let ghost all = texts@;
    for text in it: texts.into_iter()
        invariant
            it.seq() == all,
            out@.len() == it.index(),
            forall|j: int| 0 <= j < out@.len() ==> (#[trigger] out@[j])@ == all[j]@,
    {
        out.push(Uri(text));
    }
    assert(views(out@) =~= views(all));
    out
}

} // verus!
