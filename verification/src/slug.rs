//! The address of a recipe's page: the recipe's number, a hyphen, and its
//! title in kebab case.

use crate::models::RecipeListing;
use crate::text::{
    chars_of, decimal, decimal_text, digits_of, lemma_written_number_reads_back, parse_i64,
    read_i64_in,
};
use heck::ToKebabCase;
use vstd::prelude::*;
use vstd::string::StringExecFns;

verus! {

/// What `heck` makes of a title when it puts it in kebab case.
pub uninterp spec fn kebab_case(title: Seq<char>) -> Seq<char>;

/// Puts a title in kebab case with `heck::ToKebabCase::to_kebab_case`, which
/// makes of a text another text and depends on nothing else.
#[verifier::external_body]
fn to_kebab_case(title: &str) -> (kebab: String)
    ensures
        kebab@ == kebab_case(title@),
{
    title.to_kebab_case()
}

/// The slug of the recipe `id` whose title in kebab case is `kebab`.
pub open spec fn slug_text(id: int, kebab: Seq<char>) -> Seq<char> {
    decimal(id) + seq!['-'] + kebab
}

/// Whether `i` is the place of the first hyphen of `s`.
pub open spec fn is_first_hyphen(s: Seq<char>, i: int) -> bool {
    &&& 0 <= i < s.len()
    &&& s[i] == '-'
    &&& forall|j: int| 0 <= j < i ==> s[j] != '-'
}

/// The number that a slug names: what stands before its first hyphen, read
/// as a number. A text without a hyphen names none.
pub open spec fn slug_id_of(s: Seq<char>) -> Option<int> {
    if exists|i: int| is_first_hyphen(s, i) {
        parse_i64(s.take(choose|i: int| is_first_hyphen(s, i)))
    } else {
        None
    }
}

/// Makes the slug of the recipe `id` from its title in kebab case.
pub fn slug_with_kebab(id: i64, kebab: &str) -> (slug: String)
    ensures
        slug@ == slug_text(id as int, kebab@),
{
    let mut slug = decimal_text(id);
    proof {
        reveal_strlit("-");
    }
    slug.append("-");
    slug.append(kebab);
    proof {
        assert("-"@ =~= seq!['-']);
    }
    slug
}

/// Makes the slug of the recipe `id` with the title `title`.
pub fn recipe_id_title_to_slug(id: i64, title: &str) -> (slug: String)
    ensures
        slug@ == slug_text(id as int, kebab_case(title@)),
{
    let kebab = to_kebab_case(title);
    slug_with_kebab(id, kebab.as_str())
}

/// Makes the slug of a listing entry.
pub fn recipe_listing_to_slug(listing: &RecipeListing) -> (slug: String)
    ensures
        slug@ == slug_text(listing@.id, kebab_case(listing@.title)),
{
    recipe_id_title_to_slug(listing.id, listing.title.as_str())
}

/// The path of the page of the recipe `id` with the title `title`.
pub fn recipe_path(id: i64, title: &str) -> (path: String)
    ensures
        path@ == "/recipes/"@ + slug_text(id as int, kebab_case(title@)),
{
    let mut path = "/recipes/".to_owned();
    let slug = recipe_id_title_to_slug(id, title);
    path.append(slug.as_str());
    path
}

/// Reads the number that a slug names.
pub fn slug_id(slug: &str) -> (id: Option<i64>)
    ensures
        id is Some <==> slug_id_of(slug@) is Some,
        id matches Some(n) ==> slug_id_of(slug@) == Some(n as int),
{
    let chars = chars_of(slug);
    let mut i: usize = 0;
    while i < chars.len() && chars[i] != '-'
        invariant
            i <= chars@.len(),
            forall|j: int| 0 <= j < i ==> chars@[j] != '-',
        decreases chars@.len() - i,
    {
        i += 1;
    }
    if i == chars.len() {
        proof {
            assert forall|k: int| !is_first_hyphen(chars@, k) by {}
        }
        return None;
    }
    proof {
        assert(is_first_hyphen(chars@, i as int));
        let chosen = choose|k: int| is_first_hyphen(chars@, k);
        assert(chosen == i) by {
            if chosen < i {
                assert(chars@[chosen] != '-');
            }
            if i < chosen {
                assert(chars@[i as int] != '-');
            }
        }
    }
    read_i64_in(&chars, i)
}

/// Tells whether `slug` is the slug of the recipe `id` with the title `title`.
pub fn is_slug_of(slug: &str, id: i64, title: &str) -> (same: bool)
    ensures
        same == (slug@ == slug_text(id as int, kebab_case(title@))),
{
    let expected = recipe_id_title_to_slug(id, title);
    let given = slug.to_owned();
    expected == given
}

/// The slug of a recipe names the recipe's number, where that is not negative.
pub proof fn lemma_slug_names_its_recipe(id: int, kebab: Seq<char>)
    requires
        0 <= id <= i64::MAX,
    ensures
        slug_id_of(slug_text(id, kebab)) == Some(id),
{
    let digits = digits_of(id as nat);
    let s = slug_text(id, kebab);
    lemma_written_number_reads_back(id as nat);
    let at = digits.len() as int;
    assert(s[at] == '-');
    assert forall|j: int| 0 <= j < at implies s[j] != '-' by {
        assert(s[j] == digits[j]);
        assert(crate::text::is_digit(digits[j]));
    }
    assert(is_first_hyphen(s, at));
    let chosen = choose|k: int| is_first_hyphen(s, k);
    assert(chosen == at) by {
        if chosen < at {
            assert(s[chosen] != '-');
        }
        if at < chosen {
            assert(s[at] != '-');
        }
    }
    assert(s.take(at) =~= digits);
    assert(crate::text::is_digit(digits[0]));
}

/// The slug of a recipe with a negative number names no recipe: its first
/// hyphen is the sign.
pub proof fn lemma_negative_slug_names_nothing(id: int, kebab: Seq<char>)
    requires
        id < 0,
    ensures
        slug_id_of(slug_text(id, kebab)) is None,
{
    let s = slug_text(id, kebab);
    assert(s[0] == '-');
    assert(is_first_hyphen(s, 0));
    let chosen = choose|k: int| is_first_hyphen(s, k);
    assert(chosen == 0) by {
        if 0 < chosen {
            assert(s[0] != '-');
        }
    }
    assert(s.take(0).len() == 0);
}

} // verus!
