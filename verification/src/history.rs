use vstd::prelude::*;

verus! {

/// The unified diff that leads from `earlier` to `later`.
pub uninterp spec fn unified_diff(earlier: Seq<char>, later: Seq<char>) -> Seq<char>;

/// The text that a unified diff makes of `base`; `None` where the diff cannot be read or does
/// not apply.
pub uninterp spec fn patched(base: Seq<char>, patch: Seq<char>) -> Option<Seq<char>>;

/// `diffy::create_patch`, written out in the unified format. The crate's documentation says of
/// such a patch that applying it to the base recovers the new text; the contract claims this of
/// the written form read back by `apply_patch`.
#[verifier::external_body]
pub(crate) fn create_patch(earlier: &str, later: &str) -> (patch: String)
    ensures
        patch@ == unified_diff(earlier@, later@),
        patched(earlier@, patch@) == Some(later@),
{
    diffy::create_patch(earlier, later).to_string()
}

/// Whether a text is a diff as `create_patch` writes it, of whatever two texts.
pub open spec fn is_diff(patch: Seq<char>) -> bool {
    exists|earlier: Seq<char>, later: Seq<char>| patch == #[trigger] unified_diff(earlier, later)
}

/// `diffy::Patch::from_str` and `diffy::apply`: the text that the patch makes of `base`, `None`
/// where the patch cannot be read or a hunk of it finds no place. The crate's reader adds the
/// start and the length that a hunk header names without a check, so a header written by
/// hand can make it overflow; the contract is claimed only of diffs that the crate has
/// written itself, whose headers name lines of the texts.
#[verifier::external_body]
pub(crate) fn apply_patch(base: &str, patch: &str) -> (r: Option<String>)
    requires
        is_diff(patch@),
    ensures
        match r {
            Some(s) => patched(base@, patch@) == Some(s@),
            None => patched(base@, patch@).is_none(),
        },
{
    let patch = diffy::Patch::from_str(patch).ok()?;
    diffy::apply(base, &patch).ok()
}

} // verus!
