use vstd::prelude::*;
use crate::model::{canonical_name, week_wf, Day, DayModel, Week, DAYS_IN_WEEK};

verus! {

/// What `str::to_lowercase` makes of a string.
pub uninterp spec fn lower_of(s: Seq<char>) -> Seq<char>;

/// Every character is ASCII.
pub open spec fn all_ascii(s: Seq<char>) -> bool {
    forall|i: int| 0 <= i < s.len() ==> (#[trigger] s[i] as u32) < 128
}

/// ASCII lower case of one character: `A`..`Z` become `a`..`z`, the rest stay.
pub open spec fn ascii_lower_char(c: char) -> char {
    if 'A' <= c && c <= 'Z' {
        ((c as u32) + 32) as char
    } else {
        c
    }
}

/// ASCII lower case of a string, character by character.
pub open spec fn ascii_lower(s: Seq<char>) -> Seq<char> {
    s.map_values(|c: char| ascii_lower_char(c))
}

/// Lower case as `str::to_lowercase` computes it: on ASCII text, `A`..`Z`
/// become `a`..`z` and the rest stay; other text gets the Unicode mapping.
pub open spec fn fold_case(s: Seq<char>) -> Seq<char> {
    if all_ascii(s) {
        ascii_lower(s)
    } else {
        lower_of(s)
    }
}

/// Relies on `str::to_lowercase`: the result depends on the characters
/// alone, and on ASCII text it maps `A`..`Z` to `a`..`z` and keeps the rest.
#[verifier::external_body]
fn lowercase(s: &str) -> (r: String)
    ensures
        all_ascii(s@) ==> r@ == ascii_lower(s@),
        !all_ascii(s@) ==> r@ == lower_of(s@),
{
    s.to_lowercase()
}

/// The first position at or after `i` whose day name folds to `key`.
pub open spec fn match_from(w: Seq<DayModel>, key: Seq<char>, i: int) -> Option<int>
    decreases w.len() - i,
{
    if i < 0 || i >= w.len() {
        None
    } else if fold_case(w[i].name) == key {
        Some(i)
    } else {
        match_from(w, key, i + 1)
    }
}

/// The position of the day that `name` names, ignoring case.
pub open spec fn day_position(w: Seq<DayModel>, name: Seq<char>) -> Option<int> {
    match_from(w, fold_case(name), 0)
}

impl Week {
    /// The position of the day named `name`, compared without regard to case.
    pub fn find_day_index(&self, name: &str) -> (r: Option<usize>)
        ensures
            r matches Some(i) ==> day_position(self@, name@) == Some(i as int) && i < self@.len(),
            r is None ==> day_position(self@, name@) is None,
    {
        let key = lowercase(name);
        let mut i: usize = 0;
        while i < self.days.len()
            invariant
                i <= self.days@.len(),
                key@ == fold_case(name@),
                match_from(self@, key@, 0) == match_from(self@, key@, i as int),
            decreases self.days@.len() - i,
        {
            let folded = lowercase(self.days[i].name.as_str());
            assert(self@[i as int] == self.days@[i as int]@);
            if folded == key {
                return Some(i);
            }
            i = i + 1;
        }
        None
    }

    /// The day named `name`, compared without regard to case.
    pub fn find_day(&self, name: &str) -> (r: Option<&Day>)
        ensures
            r matches Some(d) ==> exists|i: int|
                day_position(self@, name@) == Some(i) && d@ == #[trigger] self@[i],
            r is None ==> day_position(self@, name@) is None,
    {
        match self.find_day_index(name) {
            Some(i) => {
                assert(self@[i as int] == self.days@[i as int]@);
                Some(&self.days[i])
            },
            None => None,
        }
    }
}

/// A scan that finds a day finds it inside the week, at or after its start.
pub proof fn lemma_match_in_bounds(w: Seq<DayModel>, key: Seq<char>, i: int)
    ensures
        match_from(w, key, i) matches Some(p) ==> i <= p < w.len() && 0 <= p,
    decreases w.len() - i,
{
    if 0 <= i < w.len() && fold_case(w[i].name) != key {
        lemma_match_in_bounds(w, key, i + 1);
    }
}

/// The canonical names are ASCII, and no two of them fold to the same text.
pub proof fn lemma_canonical_names_distinct(j: int, k: int)
    requires
        0 <= j < DAYS_IN_WEEK,
        0 <= k < DAYS_IN_WEEK,
        j != k,
    ensures
        all_ascii(canonical_name(j)),
        fold_case(canonical_name(j)) != fold_case(canonical_name(k)),
{
    let a = canonical_name(j);
    let b = canonical_name(k);
    assert(all_ascii(a));
    assert(all_ascii(b));
    assert(fold_case(a).len() == a.len());
    assert(fold_case(b).len() == b.len());
    assert(fold_case(a)[0] == ascii_lower_char(a[0]));
    assert(fold_case(b)[0] == ascii_lower_char(b[0]));
}

/// On a well-formed week, the canonical name of position `k`, in any case,
/// finds the day at `k`.
pub proof fn lemma_canonical_lookup(w: Seq<DayModel>, k: int)
    requires
        week_wf(w),
        0 <= k < DAYS_IN_WEEK,
    ensures
        day_position(w, canonical_name(k)) == Some(k),
{
    lemma_canonical_scan(w, k, 0);
}

/// The scan for the canonical name of `k`, started at or before `k`, stops at `k`.
proof fn lemma_canonical_scan(w: Seq<DayModel>, k: int, i: int)
    requires
        week_wf(w),
        0 <= i <= k < DAYS_IN_WEEK,
    ensures
        match_from(w, fold_case(canonical_name(k)), i) == Some(k),
    decreases k - i,
{
    assert(w[i].name == canonical_name(i));
    if i < k {
        lemma_canonical_names_distinct(i, k);
        lemma_canonical_scan(w, k, i + 1);
    }
}

/// Two names that fold to the same text pick the same day.
pub proof fn lemma_same_fold_same_day(w: Seq<DayModel>, a: Seq<char>, b: Seq<char>)
    requires
        fold_case(a) == fold_case(b),
    ensures
        day_position(w, a) == day_position(w, b),
{
}

/// Day names are matched without regard to case: two ASCII names that differ
/// only in the case of their letters pick the same day.
pub proof fn lemma_day_names_ignore_case(w: Seq<DayModel>, a: Seq<char>, b: Seq<char>)
    requires
        all_ascii(a),
        all_ascii(b),
        ascii_lower(a) == ascii_lower(b),
    ensures
        day_position(w, a) == day_position(w, b),
{
}

} // verus!
