use vstd::prelude::*;
use crate::manifest::{Manifest, ManifestView, spec_get_target};

verus! {

/// What `inflector`'s title-casing returns for a given character sequence.
/// The transform depends on the characters alone, so naming its result is
/// sound; nothing further is assumed about it.
pub uninterp spec fn title_case_of(s: Seq<char>) -> Seq<char>;

/// Relies on inflector's `to_title_case`: a pure word-casing transform of
/// its argument; an empty string stays empty.
#[verifier::external_body]
fn to_title_case_ext(s: &str) -> (r: String)
    ensures
        r@ == title_case_of(s@),
        s@.len() == 0 ==> r@.len() == 0,
{
    inflector::cases::titlecase::to_title_case(s)
}

/// The display title a target identifier resolves to: the target's declared
/// metadata name when the manifest has one, otherwise the word-cased
/// identifier.
pub open spec fn spec_title(m: ManifestView, target_name: Seq<char>) -> Seq<char> {
    match spec_get_target(m.targets, target_name) {
        Some(t) => match t.metadata {
            Some(meta) => match meta.name {
                Some(n) => n,
                None => title_case_of(target_name),
            },
            None => title_case_of(target_name),
        },
        None => title_case_of(target_name),
    }
}

/// Derives the display title used for the staging directory and the package
/// and archive names.
pub fn derive_title(manifest: &Manifest, target_name: &str) -> (r: String)
    ensures
        r@ == spec_title(manifest@, target_name@),
{
    match manifest.get_target(target_name) {
        Some(t) => match &t.metadata {
            Some(meta) => match &meta.name {
                Some(n) => n.clone(),
                None => to_title_case_ext(target_name),
            },
            None => to_title_case_ext(target_name),
        },
        None => to_title_case_ext(target_name),
    }
}

/// Title derivation is a function of the manifest and the raw identifier
/// alone: equal inputs always yield equal titles, across any two runs.
pub proof fn lemma_title_deterministic(
    m1: ManifestView,
    m2: ManifestView,
    n1: Seq<char>,
    n2: Seq<char>,
)
    requires
        m1 == m2,
        n1 == n2,
    ensures
        spec_title(m1, n1) == spec_title(m2, n2),
{
}

} // verus!
