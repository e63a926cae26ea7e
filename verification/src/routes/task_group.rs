//! Task groups that cannot be deleted or archived.

use vstd::prelude::*;

use crate::text::{chars_eq, chars_of, lower_chars, lower_seq};

verus! {

/// Whether `slug` names a built-in group (`chores`, `bugs` or `hotfix`, in
/// any ASCII case).
pub open spec fn builtin_group(slug: Seq<char>) -> bool {
    let l = lower_seq(slug);
    l == "chores"@ || l == "bugs"@ || l == "hotfix"@
}

/// Whether `slug` names a built-in group, which the API refuses to delete
/// or archive.
pub fn is_builtin_group(slug: &str) -> (r: bool)
    ensures
        r == builtin_group(slug@),
{
    let l = lower_chars(&chars_of(slug));
    chars_eq(&l, &chars_of("chores")) || chars_eq(&l, &chars_of("bugs")) || chars_eq(
        &l,
        &chars_of("hotfix"),
    )
}

} // verus!
