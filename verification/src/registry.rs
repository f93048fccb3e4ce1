//! The entity registry: an ordered, in-memory collection of person records
//! with validated creation and removal by identifier.
//!
//! The collection is ordered most-recent-first: a newly created person is
//! prepended. Identifiers are generated on creation and are pairwise
//! distinct, an invariant every operation preserves.

use vstd::prelude::*;
use vstd::seq_lib::*;
use crate::date::{Date, date_parse, parse_date};
use crate::ids::new_uuid;
use vstd::string::StringExecFns;

verus! {

/// A validated person record.
pub struct Person {
    pub id: String,
    pub name: String,
    pub date_of_birth: Date,
    pub nationality: String,
}

/// The mathematical value of a `Person`.
pub ghost struct PersonView {
    pub id: Seq<char>,
    pub name: Seq<char>,
    pub date_of_birth: Date,
    pub nationality: Seq<char>,
}

impl View for Person {
    type V = PersonView;

    open spec fn view(&self) -> PersonView {
        PersonView {
            id: self.id@,
            name: self.name@,
            date_of_birth: self.date_of_birth,
            nationality: self.nationality@,
        }
    }
}

impl Person {
    pub open spec fn wf(&self) -> bool {
        self.date_of_birth.wf()
    }

    /// A field-for-field copy, so that callers get snapshots rather than
    /// references into the registry's collection.
    pub fn duplicate(&self) -> (r: Person)
        ensures
            r@ == self@,
    {
        Person {
            id: self.id.clone(),
            name: self.name.clone(),
            date_of_birth: self.date_of_birth,
            nationality: self.nationality.clone(),
        }
    }
}

/// The untrusted textual payload of a create request.
pub struct AddPersonFormValues {
    pub name: String,
    pub date_of_birth: String,
    pub nationality: String,
}

/// The mathematical value of an `AddPersonFormValues`.
pub ghost struct FormValuesView {
    pub name: Seq<char>,
    pub date_of_birth: Seq<char>,
    pub nationality: Seq<char>,
}

impl View for AddPersonFormValues {
    type V = FormValuesView;

    open spec fn view(&self) -> FormValuesView {
        FormValuesView {
            name: self.name@,
            date_of_birth: self.date_of_birth@,
            nationality: self.nationality@,
        }
    }
}

impl AddPersonFormValues {
    /// Validates the payload. Only the date of birth is checked: it must
    /// parse as a calendar date. On failure only that field carries a
    /// message; the name and nationality are accepted as they are.
    pub fn validate(&self) -> (r: Result<Date, AddPersonFormErrors>)
        ensures
            (r is Ok) == (date_parse(self@.date_of_birth) is Some),
            r matches Ok(d) ==> date_parse(self@.date_of_birth) == Some(
                (d.year as int, d.month as int, d.day as int),
            ) && d.wf(),
            r matches Err(e) ==> e@.name is None && e@.nationality is None
                && e@.date_of_birth == Some(dob_error_message()),
    {
        match parse_date(self.date_of_birth.as_str()) {
            Some(d) => Ok(d),
            None => {
                let msg = String::from_str(
                    "the date of birth is not valid, should be in format YYYY-MM-DD",
                );
                proof {
                    reveal_strlit(
                        "the date of birth is not valid, should be in format YYYY-MM-DD",
                    );
                }
                Err(
                    AddPersonFormErrors {
                        name: None,
                        date_of_birth: Some(msg),
                        nationality: None,
                    },
                )
            },
        }
    }
}

/// Per-field validation messages; a field carries a message exactly when it
/// failed validation.
#[derive(Debug)]
pub struct AddPersonFormErrors {
    pub name: Option<String>,
    pub date_of_birth: Option<String>,
    pub nationality: Option<String>,
}

/// The mathematical value of an `AddPersonFormErrors`.
pub ghost struct FormErrorsView {
    pub name: Option<Seq<char>>,
    pub date_of_birth: Option<Seq<char>>,
    pub nationality: Option<Seq<char>>,
}

impl View for AddPersonFormErrors {
    type V = FormErrorsView;

    open spec fn view(&self) -> FormErrorsView {
        FormErrorsView {
            name: self.name.deep_view(),
            date_of_birth: self.date_of_birth.deep_view(),
            nationality: self.nationality.deep_view(),
        }
    }
}

/// The outcome of a create request: either a fully valid person was added,
/// or nothing changed and the errors are returned together with the raw
/// input so the caller can redisplay it.
pub enum CreateOutcome {
    Created(Person),
    Rejected(AddPersonFormErrors, AddPersonFormValues),
}

/// The outcome of a delete request.
#[derive(Clone, Copy, PartialEq, Eq, Structural, Debug)]
pub enum DeleteOutcome {
    Deleted,
    NotFound,
}

/// The validation message attached to an unparsable date of birth.
pub open spec fn dob_error_message() -> Seq<char> {
    "the date of birth is not valid, should be in format YYYY-MM-DD"@
}

/// Whether some record in `s` carries the identifier `id`.
pub open spec fn has_id(s: Seq<PersonView>, id: Seq<char>) -> bool {
    exists|i: int| 0 <= i < s.len() && s[i].id == id
}

/// Identifiers are pairwise distinct.
pub open spec fn ids_unique(s: Seq<PersonView>) -> bool {
    forall|i: int, j: int| 0 <= i < j < s.len() ==> s[i].id != s[j].id
}

/// Every record is well formed and identifiers are pairwise distinct.
pub open spec fn registry_wf(s: Seq<PersonView>) -> bool {
    &&& ids_unique(s)
    &&& forall|i: int| 0 <= i < s.len() ==> (#[trigger] s[i]).date_of_birth.wf()
}

/// The values of a sequence of records.
pub open spec fn people_view(v: Seq<Person>) -> Seq<PersonView> {
    v.map_values(|p: Person| p@)
}

/// The registry: sole owner of the collection of person records.
pub struct PeopleState {
    people: Vec<Person>,
}

impl View for PeopleState {
    type V = Seq<PersonView>;

    closed spec fn view(&self) -> Seq<PersonView> {
        people_view(self.people@)
    }
}

impl PeopleState {
    /// The registry's invariant.
    pub open spec fn inv(&self) -> bool {
        registry_wf(self@)
    }

    /// An empty registry.
    pub fn new() -> (s: Self)
        ensures
            s@ == Seq::<PersonView>::empty(),
            s.inv(),
    {
        let s = PeopleState { people: Vec::new() };
        proof {
            assert(s@ =~= Seq::<PersonView>::empty());
        }
        s
    }

    /// Prepends a person whose identifier is not yet in the registry.
    fn add_person(&mut self, person: Person)
        requires
            old(self).inv(),
            person.wf(),
            !has_id(old(self)@, person@.id),
        ensures
            final(self).inv(),
            final(self)@ == seq![person@] + old(self)@,
    {
        let ghost prior = self@;
        let ghost p = person@;
        self.people.insert(0, person);
        proof {
            assert(self@ =~= seq![p] + prior);
            assert forall|i: int, j: int| 0 <= i < j < self@.len() implies self@[i].id
                != self@[j].id by {
                if i == 0 {
                    assert(prior[j - 1].id == self@[j].id);
                }
            }
        }
    }

    /// Whether some stored record carries the identifier `id`.
    fn contains_id(&self, id: &String) -> (b: bool)
        ensures
            b == has_id(self@, id@),
    {
        let mut i: usize = 0;
        while i < self.people.len()
            invariant
                i <= self.people.len(),
                forall|k: int| 0 <= k < i ==> self@[k].id != id@,
            decreases self.people.len() - i,
        {
            if self.people[i].id == *id {
                proof {
                    assert(self@[i as int].id == id@);
                }
                return true;
            }
            i += 1;
        }
        false
    }

    /// Looks a record up by identifier; returns a snapshot of the match.
    pub fn get_person(&self, person_id: &String) -> (r: Option<Person>)
        ensures
            (r is Some) == has_id(self@, person_id@),
            r matches Some(p) ==> p@.id == person_id@ && self@.contains(p@),
    {
        let mut i: usize = 0;
        while i < self.people.len()
            invariant
                i <= self.people.len(),
                forall|k: int| 0 <= k < i ==> self@[k].id != person_id@,
            decreases self.people.len() - i,
        {
            if self.people[i].id == *person_id {
                let p = self.people[i].duplicate();
                proof {
                    assert(self@[i as int] == p@);
                }
                return Some(p);
            }
            i += 1;
        }
        None
    }

    /// A snapshot of the whole collection, in its current order.
    pub fn get_people(&self) -> (r: Vec<Person>)
        ensures
            people_view(r@) == self@,
    {
        let mut out: Vec<Person> = Vec::new();
        let mut i: usize = 0;
        while i < self.people.len()
            invariant
                i <= self.people.len(),
                out@.len() == i,
                forall|k: int| 0 <= k < i ==> (#[trigger] out@[k])@ == self@[k],
            decreases self.people.len() - i,
        {
            let p = self.people[i].duplicate();
            proof {
                assert(p@ == self@[i as int]);
            }
            out.push(p);
            i += 1;
        }
        proof {
            assert(people_view(out@) =~= self@);
        }
        out
    }

    /// An identifier carried by no stored record. Normally the first random
    /// identifier is fresh; if it happens to be taken, an identifier longer
    /// than every stored one is built, which cannot collide.
    fn fresh_id(&self) -> (id: String)
        ensures
            !has_id(self@, id@),
    {
        let id = new_uuid();
        if !self.contains_id(&id) {
            return id;
        }
        let mut fallback = String::new();
        let mut i: usize = 0;
        while i < self.people.len()
            invariant
                i <= self.people.len(),
                forall|k: int| 0 <= k < i ==> (#[trigger] self@[k]).id.len() < fallback@.len(),
            decreases self.people.len() - i,
        {
            let target: usize = self.people[i].id.as_str().unicode_len();
            while fallback.as_str().unicode_len() <= target
                invariant
                    target == self@[i as int].id.len(),
                    i < self.people.len(),
                    forall|k: int| 0 <= k < i ==> (#[trigger] self@[k]).id.len()
                        < fallback@.len(),
                decreases target + 1 - fallback@.len(),
            {
                fallback.append("x");
                proof {
                    reveal_strlit("x");
                }
            }
            i += 1;
        }
        proof {
            assert forall|k: int| 0 <= k < self@.len() implies self@[k].id != fallback@ by {
                assert(self@[k].id.len() < fallback@.len());
            }
        }
        fallback
    }

    /// Validates the raw input and, on success, creates a person with a
    /// fresh identifier and prepends it. On failure the registry is
    /// unchanged and the input is echoed back with per-field messages.
    pub fn create(&mut self, input: AddPersonFormValues) -> (r: CreateOutcome)
        requires
            old(self).inv(),
        ensures
            final(self).inv(),
            (r is Rejected) == (date_parse(input@.date_of_birth) is None),
            r matches CreateOutcome::Rejected(errors, echo) ==> final(self)@ == old(self)@
                && errors@.name is None && errors@.nationality is None
                && errors@.date_of_birth == Some(dob_error_message()) && echo@ == input@,
            r matches CreateOutcome::Created(p) ==> date_parse(input@.date_of_birth) == Some(
                (
                    p@.date_of_birth.year as int,
                    p@.date_of_birth.month as int,
                    p@.date_of_birth.day as int,
                ),
            ) && p@.name == input@.name && p@.nationality == input@.nationality && !has_id(
                old(self)@,
                p@.id,
            ) && final(self)@ == seq![p@] + old(self)@,
    {
        match input.validate() {
            Err(errors) => CreateOutcome::Rejected(errors, input),
            Ok(d) => {
                let id = self.fresh_id();
                let person = Person {
                    id,
                    name: input.name,
                    date_of_birth: d,
                    nationality: input.nationality,
                };
                let result = person.duplicate();
                self.add_person(person);
                CreateOutcome::Created(result)
            },
        }
    }

    /// Removes the record carrying `person_id`, if any. The existence check
    /// and the removal happen within this single call, so no other
    /// operation can run between them.
    pub fn delete_by_id(&mut self, person_id: &String) -> (r: DeleteOutcome)
        requires
            old(self).inv(),
        ensures
            final(self).inv(),
            (r == DeleteOutcome::NotFound) == !has_id(old(self)@, person_id@),
            r == DeleteOutcome::NotFound ==> final(self)@ == old(self)@,
            final(self)@ == remove_id(old(self)@, person_id@),
    {
        let ghost prior = self@;
        let mut retained: Vec<Person> = Vec::new();
        let mut found = false;
        let mut i: usize = 0;
        while i < self.people.len()
            invariant
                i <= self.people.len(),
                prior == self@,
                people_view(retained@) == remove_id(prior.take(i as int), person_id@),
                found == has_id(prior.take(i as int), person_id@),
            decreases self.people.len() - i,
        {
            let ghost pre_take = prior.take(i as int);
            let ghost cur = prior[i as int];
            proof {
                assert(prior.take(i as int + 1) =~= pre_take.push(cur));
                lemma_remove_id_snoc(pre_take, cur, person_id@);
            }
            if self.people[i].id == *person_id {
                found = true;
                proof {
                    assert(cur.id == person_id@);
                    assert(prior.take(i as int + 1)[i as int].id == person_id@);
                }
            } else {
                let ghost pre_out = retained@;
                let p = self.people[i].duplicate();
                retained.push(p);
                proof {
                    assert(cur.id != person_id@);
                    assert(people_view(retained@) =~= people_view(pre_out).push(cur));
                    if !found {
                        assert forall|k: int|
                            0 <= k < prior.take(i as int + 1).len()
                                && #[trigger] prior.take(i as int + 1)[k].id
                                == person_id@ implies false by {
                            if k < i as int {
                                assert(pre_take[k].id == person_id@);
                            } else {
                                assert(prior.take(i as int + 1)[k] == cur);
                            }
                        }
                    } else {
                        let k = choose|k: int|
                            0 <= k < pre_take.len() && pre_take[k].id == person_id@;
                        assert(prior.take(i as int + 1)[k].id == person_id@);
                    }
                }
            }
            i += 1;
        }
        proof {
            assert(prior.take(prior.len() as int) =~= prior);
        }
        self.people = retained;
        proof {
            if found {
                lemma_remove_id_wf(prior, person_id@);
            } else {
                lemma_remove_id_absent(prior, person_id@);
            }
        }
        if found {
            DeleteOutcome::Deleted
        } else {
            DeleteOutcome::NotFound
        }
    }

    /// The registry the process starts with: two sample records, the most
    /// recently added one in front.
    pub fn seeded() -> (s: Self)
        ensures
            s.inv(),
            s@.len() == 2,
            s@[0].name == "John Doe"@,
            s@[0].nationality == "GB"@,
            s@[0].date_of_birth == (Date { year: 1984, month: 1, day: 1 }),
            s@[1].name == "Frankie Smith"@,
            s@[1].nationality == "US"@,
            s@[1].date_of_birth == (Date { year: 1963, month: 12, day: 27 }),
    {
        let mut s = PeopleState::new();
        let frankie_id = s.fresh_id();
        let frankie = Person {
            id: frankie_id,
            name: String::from_str("Frankie Smith"),
            date_of_birth: Date { year: 1963, month: 12, day: 27 },
            nationality: String::from_str("US"),
        };
        s.add_person(frankie);
        let john_id = s.fresh_id();
        let john = Person {
            id: john_id,
            name: String::from_str("John Doe"),
            date_of_birth: Date { year: 1984, month: 1, day: 1 },
            nationality: String::from_str("GB"),
        };
        s.add_person(john);
        s
    }
}

impl Default for PeopleState {
    /// The registry a process starts with: the two sample records of
    /// `seeded`, under fresh distinct identifiers.
    fn default() -> (s: Self)
        ensures
            s.inv(),
            s@.len() == 2,
            s@[0].name == "John Doe"@,
            s@[0].nationality == "GB"@,
            s@[0].date_of_birth == (Date { year: 1984, month: 1, day: 1 }),
            s@[1].name == "Frankie Smith"@,
            s@[1].nationality == "US"@,
            s@[1].date_of_birth == (Date { year: 1963, month: 12, day: 27 }),
            s@[0].id != s@[1].id,
    {
        Self::seeded()
    }
}

/// The records that survive removal of `id`: those whose identifier
/// differs.
pub open spec fn remove_id(s: Seq<PersonView>, id: Seq<char>) -> Seq<PersonView> {
    s.filter(|p: PersonView| p.id != id)
}

/// Removal commutes with appending one record: the record stays exactly
/// when its identifier differs.
proof fn lemma_remove_id_snoc(s: Seq<PersonView>, x: PersonView, id: Seq<char>)
    ensures
        x.id != id ==> remove_id(s.push(x), id) == remove_id(s, id).push(x),
        x.id == id ==> remove_id(s.push(x), id) == remove_id(s, id),
{
    reveal(Seq::filter);
    assert(s.push(x).drop_last() =~= s);
    assert(s.push(x).last() == x);
}

/// Every record of the filtered sequence occurs in the unfiltered one, and
/// none of them carries `id`.
proof fn lemma_remove_id_subset(s: Seq<PersonView>, id: Seq<char>, i: int)
    requires
        0 <= i < remove_id(s, id).len(),
    ensures
        s.contains(remove_id(s, id)[i]),
        remove_id(s, id)[i].id != id,
    decreases s.len(),
{
    reveal(Seq::filter);
    if s.len() > 0 {
        let f = remove_id(s, id);
        let fd = remove_id(s.drop_last(), id);
        if s.last().id != id && i == fd.len() {
            assert(f[i] == s.last());
            assert(s[s.len() - 1] == s.last());
        } else {
            lemma_remove_id_subset(s.drop_last(), id, i);
            assert(f[i] == fd[i]);
            let j = choose|j: int|
                0 <= j < s.drop_last().len() && s.drop_last()[j] == fd[i];
            assert(s[j] == fd[i]);
        }
    }
}

/// If no record carries `id`, removal keeps the sequence as it is.
proof fn lemma_remove_id_absent(s: Seq<PersonView>, id: Seq<char>)
    requires
        !has_id(s, id),
    ensures
        remove_id(s, id) == s,
    decreases s.len(),
{
    reveal(Seq::filter);
    if s.len() == 0 {
        assert(remove_id(s, id) =~= s);
    } else {
        let d = s.drop_last();
        assert(!has_id(d, id)) by {
            if has_id(d, id) {
                let k = choose|k: int| 0 <= k < d.len() && d[k].id == id;
                assert(s[k].id == id);
            }
        }
        lemma_remove_id_absent(d, id);
        assert(s.last().id != id) by {
            if s.last().id == id {
                assert(s[s.len() - 1].id == id);
            }
        }
        assert(remove_id(s, id) =~= d.push(s.last()));
        assert(d.push(s.last()) =~= s);
    }
}

/// Deleting a present identifier removes exactly one record: the length
/// drops by one, the identifier is gone, and every other identifier is
/// present exactly as before.
pub proof fn lemma_delete_removes_exactly_one(s: Seq<PersonView>, id: Seq<char>)
    requires
        registry_wf(s),
        has_id(s, id),
    ensures
        remove_id(s, id).len() == s.len() - 1,
        !has_id(remove_id(s, id), id),
        forall|other: Seq<char>|
            other != id ==> (has_id(remove_id(s, id), other) == has_id(s, other)),
    decreases s.len(),
{
    reveal(Seq::filter);
    let f = remove_id(s, id);
    let d = s.drop_last();
    let fd = remove_id(d, id);
    assert(registry_wf(d)) by {
        assert forall|i: int, j: int| 0 <= i < j < d.len() implies d[i].id != d[j].id by {
            assert(s[i].id != s[j].id);
        }
        assert forall|i: int| 0 <= i < d.len() implies (#[trigger] d[i]).date_of_birth.wf() by {
            assert(s[i].date_of_birth.wf());
        }
    }
    if s.last().id == id {
        assert(!has_id(d, id)) by {
            if has_id(d, id) {
                let k = choose|k: int| 0 <= k < d.len() && d[k].id == id;
                assert(s[k].id != s[s.len() - 1].id);
            }
        }
        lemma_remove_id_absent(d, id);
        assert(f == fd);
        assert forall|other: Seq<char>| other != id implies (has_id(f, other) == has_id(
            s,
            other,
        )) by {
            if has_id(f, other) {
                let k = choose|k: int| 0 <= k < d.len() && d[k].id == other;
                assert(s[k].id == other);
            }
            if has_id(s, other) {
                let k = choose|k: int| 0 <= k < s.len() && s[k].id == other;
                assert(k < s.len() - 1);
                assert(f[k].id == other);
            }
        }
    } else {
        assert(has_id(d, id)) by {
            let k = choose|k: int| 0 <= k < s.len() && s[k].id == id;
            assert(k < s.len() - 1);
            assert(d[k].id == id);
        }
        lemma_delete_removes_exactly_one(d, id);
        assert(f == fd.push(s.last()));
        assert(!has_id(f, id)) by {
            if has_id(f, id) {
                let k = choose|k: int| 0 <= k < f.len() && f[k].id == id;
                if k < fd.len() {
                    assert(fd[k].id == id);
                } else {
                    assert(f[k] == s.last());
                }
            }
        }
        assert forall|other: Seq<char>| other != id implies (has_id(f, other) == has_id(
            s,
            other,
        )) by {
            if has_id(f, other) {
                let k = choose|k: int| 0 <= k < f.len() && f[k].id == other;
                if k < fd.len() {
                    assert(fd[k].id == other);
                    assert(has_id(fd, other));
                    assert(has_id(d, other));
                    let m = choose|m: int| 0 <= m < d.len() && d[m].id == other;
                    assert(s[m].id == other);
                } else {
                    assert(s[s.len() - 1].id == other);
                }
            }
            if has_id(s, other) {
                let k = choose|k: int| 0 <= k < s.len() && s[k].id == other;
                if k < s.len() - 1 {
                    assert(d[k].id == other);
                    assert(has_id(d, other));
                    assert(has_id(fd, other));
                    let m = choose|m: int| 0 <= m < fd.len() && fd[m].id == other;
                    assert(f[m].id == other);
                } else {
                    assert(f[f.len() - 1].id == other);
                }
            }
        }
    }
}

/// Creation prepends: after creating `a` and then `b`, the listing starts
/// with `b`, then `a`, and then everything that was already there, in its
/// old order.
pub proof fn lemma_insertion_order(
    s0: Seq<PersonView>,
    s1: Seq<PersonView>,
    s2: Seq<PersonView>,
    a: PersonView,
    b: PersonView,
)
    requires
        s1 == seq![a] + s0,
        s2 == seq![b] + s1,
    ensures
        s2.len() == s0.len() + 2,
        s2[0] == b,
        s2[1] == a,
        s2.skip(2) == s0,
{
    assert(s2.skip(2) =~= s0);
}

/// A run of successful creations yields pairwise distinct identifiers: each
/// step prepends a record whose identifier no earlier state carried, so no
/// two created records share an identifier.
pub proof fn lemma_created_ids_distinct(states: Seq<Seq<PersonView>>, created: Seq<PersonView>)
    requires
        states.len() == created.len() + 1,
        forall|k: int|
            0 <= k < created.len() ==> #[trigger] states[k + 1] == seq![created[k]] + states[k],
        forall|k: int| 0 <= k < created.len() ==> !has_id(#[trigger] states[k], created[k].id),
    ensures
        forall|a: int, b: int|
            0 <= a < b < created.len() ==> created[a].id != created[b].id,
{
    assert forall|a: int, b: int|
        0 <= a < b < created.len() implies created[a].id != created[b].id by {
        lemma_created_id_persists(states, created, a, b);
        assert(!has_id(states[b], created[b].id));
    }
}

/// Once created, a record's identifier is carried by every later state of
/// a run of successful creations.
proof fn lemma_created_id_persists(
    states: Seq<Seq<PersonView>>,
    created: Seq<PersonView>,
    k: int,
    m: int,
)
    requires
        states.len() == created.len() + 1,
        forall|j: int|
            0 <= j < created.len() ==> #[trigger] states[j + 1] == seq![created[j]] + states[j],
        0 <= k < m <= created.len(),
    ensures
        has_id(states[m], created[k].id),
    decreases m - k,
{
    if m == k + 1 {
        assert(states[m] == seq![created[k]] + states[k]);
        assert(states[m][0].id == created[k].id);
    } else {
        lemma_created_id_persists(states, created, k, m - 1);
        let prev = states[m - 1];
        let j = choose|j: int| 0 <= j < prev.len() && prev[j].id == created[k].id;
        assert(states[(m - 1) + 1] == seq![created[m - 1]] + states[m - 1]);
        assert(states[m][j + 1].id == created[k].id);
    }
}

/// Removal preserves well-formedness of the registry contents.
proof fn lemma_remove_id_wf(s: Seq<PersonView>, id: Seq<char>)
    requires
        registry_wf(s),
    ensures
        registry_wf(remove_id(s, id)),
    decreases s.len(),
{
    reveal(Seq::filter);
    let f = remove_id(s, id);
    if s.len() == 0 {
        assert(f =~= s);
    } else {
        let d = s.drop_last();
        assert(registry_wf(d)) by {
            assert forall|i: int, j: int| 0 <= i < j < d.len() implies d[i].id != d[j].id by {
                assert(s[i].id != s[j].id);
            }
            assert forall|i: int| 0 <= i < d.len() implies (#[trigger] d[i]).date_of_birth.wf() by {
                assert(s[i].date_of_birth.wf());
            }
        }
        lemma_remove_id_wf(d, id);
        let fd = remove_id(d, id);
        if s.last().id != id {
            assert(f == fd.push(s.last()));
            assert forall|i: int, j: int| 0 <= i < j < f.len() implies f[i].id != f[j].id by {
                if j == f.len() - 1 {
                    lemma_remove_id_subset(d, id, i);
                    let k = choose|k: int| 0 <= k < d.len() && d[k] == fd[i];
                    assert(s[k].id != s[s.len() - 1].id);
                    assert(f[i] == fd[i]);
                } else {
                    assert(f[i] == fd[i]);
                    assert(f[j] == fd[j]);
                }
            }
            assert forall|i: int| 0 <= i < f.len() implies (
                #[trigger] f[i]).date_of_birth.wf() by {
                if i == f.len() - 1 {
                    assert(s[s.len() - 1].date_of_birth.wf());
                } else {
                    assert(f[i] == fd[i]);
                }
            }
        }
    }
}

} // verus!
