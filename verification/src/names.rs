//! Lists of names and tallies by name.
//!
//! The chat keeps several small collections keyed by a user's name: who is
//! typing, who is online and over how many connections, who is looking at the
//! page. A name is compared by its characters, and the order in which names
//! were first added is kept, since it is the order in which they are shown.

use vstd::prelude::*;
use crate::text::{
    chars_of, contains_run, contains_text, ends_with, ends_with_text, same_text, string_of_range,
    trim, trim_range,
};

verus! {

/// The names held in a list of strings, in order.
pub open spec fn names_of(list: Seq<String>) -> Seq<Seq<char>> {
    Seq::new(list.len(), |i: int| list[i]@)
}

/// `names` with `name` added at the end unless it is already there.
pub open spec fn with_name(names: Seq<Seq<char>>, name: Seq<char>) -> Seq<Seq<char>> {
    if names.contains(name) {
        names
    } else {
        names.push(name)
    }
}

/// `names` with every occurrence of `name` taken out, the others in order.
pub open spec fn without(names: Seq<Seq<char>>, name: Seq<char>) -> Seq<Seq<char>>
    decreases names.len(),
{
    if names.len() == 0 {
        names
    } else if names.last() == name {
        without(names.drop_last(), name)
    } else {
        without(names.drop_last(), name).push(names.last())
    }
}

/// What `with_name` holds is what was there, and `name`.
pub proof fn lemma_with_name_contains(names: Seq<Seq<char>>, name: Seq<char>, other: Seq<char>)
    ensures
        with_name(names, name).contains(other) <==> names.contains(other) || other == name,
{
    if !names.contains(name) {
        let added = names.push(name);
        assert(added[names.len() as int] == name);
        if names.contains(other) {
            let i = choose|i: int| 0 <= i < names.len() && names[i] == other;
            assert(added[i] == other);
        }
        if added.contains(other) && other != name {
            let i = choose|i: int| 0 <= i < added.len() && added[i] == other;
            assert(names[i] == other);
        }
    }
}

/// Adding a name to a list without repetition leaves one without repetition.
pub proof fn lemma_with_name_no_duplicates(names: Seq<Seq<char>>, name: Seq<char>)
    requires
        names.no_duplicates(),
    ensures
        with_name(names, name).no_duplicates(),
{
}

/// What is left after `without` is what was there and is not `name`.
pub proof fn lemma_without_contains(names: Seq<Seq<char>>, name: Seq<char>, other: Seq<char>)
    ensures
        without(names, name).contains(other) <==> names.contains(other) && other != name,
    decreases names.len(),
{
    if names.len() > 0 {
        let front = names.drop_last();
        lemma_without_contains(front, name, other);
        if names.contains(other) {
            let i = choose|i: int| 0 <= i < names.len() && names[i] == other;
            if i < front.len() {
                assert(front[i] == other);
            }
        }
        if front.contains(other) {
            let i = choose|i: int| 0 <= i < front.len() && front[i] == other;
            assert(names[i] == other);
        }
        if names.last() != name {
            let w = without(front, name);
            assert(w.push(names.last())[w.len() as int] == names.last());
            if w.contains(other) {
                let i = choose|i: int| 0 <= i < w.len() && w[i] == other;
                assert(w.push(names.last())[i] == other);
            }
        }
    }
}

/// Taking out a name that is not there changes nothing.
pub proof fn lemma_without_absent(names: Seq<Seq<char>>, name: Seq<char>)
    requires
        !names.contains(name),
    ensures
        without(names, name) == names,
    decreases names.len(),
{
    if names.len() > 0 {
        let front = names.drop_last();
        assert(names.last() == names[names.len() - 1]);
        assert forall|i: int| 0 <= i < front.len() implies front[i] != name by {
            assert(names[i] == front[i]);
        }
        lemma_without_absent(front, name);
        assert(front.push(names.last()) =~= names);
    }
}

/// In a list without repetition, taking out a name removes its one position.
pub proof fn lemma_without_remove(names: Seq<Seq<char>>, i: int)
    requires
        names.no_duplicates(),
        0 <= i < names.len(),
    ensures
        without(names, names[i]) == names.remove(i),
    decreases names.len(),
{
    let name = names[i];
    let front = names.drop_last();
    if i == names.len() - 1 {
        assert forall|k: int| 0 <= k < front.len() implies front[k] != name by {
            assert(names[k] == front[k]);
        }
        lemma_without_absent(front, name);
        assert(names.remove(i) =~= front);
    } else {
        lemma_without_remove(front, i);
        assert(front.remove(i).push(names.last()) =~= names.remove(i));
    }
}

/// Taking a name out of a list without repetition leaves one without
/// repetition.
pub proof fn lemma_without_no_duplicates(names: Seq<Seq<char>>, name: Seq<char>)
    requires
        names.no_duplicates(),
    ensures
        without(names, name).no_duplicates(),
{
    if names.contains(name) {
        let i = choose|i: int| 0 <= i < names.len() && names[i] == name;
        lemma_without_remove(names, i);
    } else {
        lemma_without_absent(names, name);
    }
}

/// The position of `name` in `list`, if it is there: the first one.
pub fn position(list: &Vec<String>, name: &str) -> (found: Option<usize>)
    ensures
        match found {
            Some(i) => i < list.len() && list[i as int]@ == name@ && forall|k: int|
                0 <= k < i ==> list[k]@ != name@,
            None => !names_of(list@).contains(name@),
        },
{
    let mut i: usize = 0;
    while i < list.len()
        invariant
            i <= list.len(),
            forall|k: int| 0 <= k < i ==> list[k]@ != name@,
        decreases list.len() - i,
    {
        if same_text(list[i].as_str(), name) {
            return Some(i);
        }
        i += 1;
    }
    None
}

/// Whether `name` is in `list`.
pub fn contains_name(list: &Vec<String>, name: &str) -> (b: bool)
    ensures
        b == names_of(list@).contains(name@),
{
    match position(list, name) {
        Some(i) => {
            assert(names_of(list@)[i as int] == name@);
            true
        },
        None => false,
    }
}

/// Adds `name` at the end of `list` unless it is already there; says whether
/// it was added.
pub fn push_unique(list: &mut Vec<String>, name: &str) -> (added: bool)
    ensures
        names_of(final(list)@) == with_name(names_of(old(list)@), name@),
        added == !names_of(old(list)@).contains(name@),
{
    if contains_name(list, name) {
        false
    } else {
        list.push(name.to_owned());
        assert(names_of(list@) =~= names_of(old(list)@).push(name@));
        true
    }
}

/// Takes every occurrence of `name` out of `list`; says whether there was one.
pub fn remove_name(list: &mut Vec<String>, name: &str) -> (removed: bool)
    ensures
        names_of(final(list)@) == without(names_of(old(list)@), name@),
        removed == names_of(old(list)@).contains(name@),
{
    let mut kept: Vec<String> = Vec::new();
    let mut removed = false;
    let mut i: usize = 0;
    while i < list.len()
        invariant
            i <= list.len(),
            names_of(kept@) == without(names_of(list@).take(i as int), name@),
            removed == names_of(list@).take(i as int).contains(name@),
        decreases list.len() - i,
    {
        proof {
            let all = names_of(list@);
            let before = all.take(i as int);
            let upto = all.take(i + 1);
            assert(upto.drop_last() =~= before);
            assert(upto.last() == list[i as int]@);
            if before.contains(name@) {
                let k = choose|k: int| 0 <= k < before.len() && before[k] == name@;
                assert(upto[k] == name@);
            }
            if upto.contains(name@) && list[i as int]@ != name@ {
                let k = choose|k: int| 0 <= k < upto.len() && upto[k] == name@;
                assert(before[k] == name@);
            }
            if list[i as int]@ == name@ {
                assert(upto[i as int] == name@);
            }
        }
        if same_text(list[i].as_str(), name) {
            removed = true;
        } else {
            kept.push(list[i].clone());
            assert(names_of(kept@) =~= without(names_of(list@).take(i as int), name@).push(
                list[i as int]@,
            ));
        }
        i += 1;
    }
    assert(names_of(list@).take(i as int) =~= names_of(list@));
    *list = kept;
    removed
}

/// A copy of `list`, name for name.
pub fn copy_names(list: &Vec<String>) -> (copy: Vec<String>)
    ensures
        names_of(copy@) == names_of(list@),
{
    let mut copy: Vec<String> = Vec::new();
    let mut i: usize = 0;
    while i < list.len()
        invariant
            i <= list.len(),
            names_of(copy@) == names_of(list@).take(i as int),
        decreases list.len() - i,
    {
        copy.push(list[i].clone());
        assert(names_of(copy@) =~= names_of(list@).take(i as int).push(list[i as int]@));
        i += 1;
        assert(names_of(list@).take(i as int) =~= names_of(list@).take(i - 1).push(
            list[i - 1]@,
        ));
    }
    assert(names_of(list@).take(i as int) =~= names_of(list@));
    copy
}

/// One name and the number kept for it.
struct TallyEntry {
    name: String,
    count: u64,
}

/// A number for each of a set of names, in the order in which the names were
/// first given one.
pub struct Tally {
    entries: Vec<TallyEntry>,
}

impl View for Tally {
    type V = Map<Seq<char>, nat>;

    /// The number kept for each name that has one.
    closed spec fn view(&self) -> Map<Seq<char>, nat> {
        Map::new(
            |name: Seq<char>| self.names().contains(name),
            |name: Seq<char>| self.entries@[self.names().index_of(name)].count as nat,
        )
    }
}

impl Tally {
    /// The names that have a number, in the order in which they got one.
    pub closed spec fn names(&self) -> Seq<Seq<char>> {
        Seq::new(self.entries@.len(), |i: int| self.entries@[i].name@)
    }

    /// No name is held twice.
    pub closed spec fn wf(&self) -> bool {
        self.names().no_duplicates()
    }

    /// The names are exactly the keys, each once, and every number fits in
    /// 64 bits.
    pub proof fn lemma_names(&self)
        requires
            self.wf(),
        ensures
            self.names().no_duplicates(),
            forall|name: Seq<char>| self.names().contains(name) <==> self@.dom().contains(name),
            forall|name: Seq<char>| self@.dom().contains(name) ==> self@[name] <= u64::MAX,
    {
    }

    /// Each entry's name is a key, and its number the one kept for that key.
    proof fn lemma_entry(&self, i: int)
        requires
            self.wf(),
            0 <= i < self.entries.len(),
        ensures
            self@.dom().contains(self.entries[i].name@),
            self@[self.entries[i].name@] == self.entries[i].count,
    {
        let name = self.entries[i].name@;
        assert(self.names()[i] == name);
        let k = self.names().index_of(name);
        assert(self.names()[k] == name);
    }

    /// The empty tally.
    pub fn new() -> (t: Tally)
        ensures
            t.wf(),
            t@ == Map::<Seq<char>, nat>::empty(),
            t.names() == Seq::<Seq<char>>::empty(),
    {
        let t = Tally { entries: Vec::new() };
        assert(t@ =~= Map::<Seq<char>, nat>::empty());
        assert(t.names() =~= Seq::<Seq<char>>::empty());
        t
    }

    /// The position of the entry of `name`, if it has one.
    fn find(&self, name: &str) -> (found: Option<usize>)
        requires
            self.wf(),
        ensures
            match found {
                Some(i) => i < self.entries.len() && self.entries[i as int].name@ == name@
                    && self@.dom().contains(name@) && self@[name@] == self.entries[i as int].count,
                None => !self@.dom().contains(name@),
            },
    {
        let mut i: usize = 0;
        while i < self.entries.len()
            invariant
                self.wf(),
                i <= self.entries.len(),
                forall|k: int| 0 <= k < i ==> self.entries[k].name@ != name@,
            decreases self.entries.len() - i,
        {
            if same_text(self.entries[i].name.as_str(), name) {
                proof {
                    self.lemma_entry(i as int);
                }
                return Some(i);
            }
            i += 1;
        }
        None
    }

    /// The number kept for `name`, if there is one.
    pub fn get(&self, name: &str) -> (count: Option<u64>)
        requires
            self.wf(),
        ensures
            count is Some == self@.dom().contains(name@),
            count is Some ==> count->0 == self@[name@],
    {
        match self.find(name) {
            Some(i) => Some(self.entries[i].count),
            None => None,
        }
    }

    /// Keeps `count` for `name`, which joins the names at the end if it had
    /// no number.
    pub fn set(&mut self, name: &str, count: u64)
        requires
            old(self).wf(),
        ensures
            final(self).wf(),
            final(self)@ == old(self)@.insert(name@, count as nat),
            final(self).names() == with_name(old(self).names(), name@),
    {
        let found = self.find(name);
        let entry = TallyEntry { name: name.to_owned(), count };
        match found {
            Some(i) => {
                self.entries.set(i, entry);
                proof {
                    assert(self.names() =~= old(self).names());
                    assert(old(self).names()[i as int] == name@);
                    assert forall|other: Seq<char>| self@.dom().contains(other) implies #[trigger] self@[other]
                        == old(self)@.insert(name@, count as nat)[other] by {
                        let k = choose|k: int| 0 <= k < self.names().len() && self.names()[k] == other;
                        self.lemma_entry(k);
                        old(self).lemma_entry(k);
                    }
                    assert(self@ =~= old(self)@.insert(name@, count as nat));
                }
            },
            None => {
                self.entries.push(entry);
                proof {
                    assert(self.names() =~= old(self).names().push(name@));
                    assert(self.names()[old(self).names().len() as int] == name@);
                    assert forall|other: Seq<char>|
                        self@.dom().contains(other) <==> old(self)@.insert(
                            name@,
                            count as nat,
                        ).dom().contains(other) by {
                        if old(self).names().contains(other) {
                            let k = choose|k: int|
                                0 <= k < old(self).names().len() && old(self).names()[k] == other;
                            assert(self.names()[k] == other);
                        }
                        if self.names().contains(other) && other != name@ {
                            let k = choose|k: int|
                                0 <= k < self.names().len() && self.names()[k] == other;
                            assert(old(self).names()[k] == other);
                        }
                    }
                    assert forall|other: Seq<char>| self@.dom().contains(other) implies #[trigger] self@[other]
                        == old(self)@.insert(name@, count as nat)[other] by {
                        let k = choose|k: int| 0 <= k < self.names().len() && self.names()[k] == other;
                        self.lemma_entry(k);
                        if k < old(self).entries.len() {
                            old(self).lemma_entry(k);
                        }
                    }
                    assert(self@ =~= old(self)@.insert(name@, count as nat));
                }
            },
        }
    }

    /// Forgets the number kept for `name`.
    pub fn remove(&mut self, name: &str)
        requires
            old(self).wf(),
        ensures
            final(self).wf(),
            final(self)@ == old(self)@.remove(name@),
            final(self).names() == without(old(self).names(), name@),
    {
        match self.find(name) {
            Some(i) => {
                self.entries.remove(i);
                proof {
                    assert(old(self).names()[i as int] == name@);
                    assert(self.names() =~= old(self).names().remove(i as int));
                    lemma_without_remove(old(self).names(), i as int);
                    assert forall|other: Seq<char>|
                        self@.dom().contains(other) <==> old(self)@.remove(name@).dom().contains(
                            other,
                        ) by {
                        lemma_without_contains(old(self).names(), name@, other);
                    }
                    assert forall|other: Seq<char>| self@.dom().contains(other) implies #[trigger] self@[other]
                        == old(self)@.remove(name@)[other] by {
                        let k = choose|k: int| 0 <= k < self.names().len() && self.names()[k] == other;
                        self.lemma_entry(k);
                        if k < i {
                            old(self).lemma_entry(k);
                        } else {
                            old(self).lemma_entry(k + 1);
                        }
                    }
                    assert(self@ =~= old(self)@.remove(name@));
                }
            },
            None => {
                proof {
                    lemma_without_absent(old(self).names(), name@);
                    assert(self@ =~= old(self)@.remove(name@));
                }
            },
        }
    }

    /// The names that have a number, in the order in which they got one.
    pub fn name_list(&self) -> (list: Vec<String>)
        ensures
            names_of(list@) == self.names(),
    {
        let mut list: Vec<String> = Vec::new();
        let mut i: usize = 0;
        while i < self.entries.len()
            invariant
                i <= self.entries.len(),
                names_of(list@) == self.names().take(i as int),
            decreases self.entries.len() - i,
        {
            list.push(self.entries[i].name.clone());
            assert(names_of(list@) =~= self.names().take(i as int).push(self.entries[i as int].name@));
            i += 1;
            assert(self.names().take(i as int) =~= self.names().take(i - 1).push(
                self.entries[i - 1].name@,
            ));
        }
        assert(self.names().take(i as int) =~= self.names());
        list
    }
}

/// The lower-case form of `s`, as `str::to_lowercase` gives it.
pub uninterp spec fn lowercase(s: Seq<char>) -> Seq<char>;

/// Calls `str::to_lowercase`, which maps a text to its lower-case form by the
/// Unicode rules. The result is a function of the text alone; it is named, not
/// described.
#[verifier::external_body]
fn to_lowercase(s: &str) -> (lower: String)
    ensures
        lower@ == lowercase(s@),
{
    s.to_lowercase()
}

/// Whether a name, trimmed and in lower case, may be used: it is not empty,
/// does not end in `(bot)`, and holds neither `system` nor `admin`. Such names
/// would pass for a bot or for the server.
pub open spec fn acceptable(lowered: Seq<char>) -> bool {
    &&& lowered.len() > 0
    &&& !ends_with(lowered, "(bot)"@)
    &&& !contains_run(lowered, "system"@)
    &&& !contains_run(lowered, "admin"@)
}

/// Whether `lowered`, a name already trimmed and in lower case, may be used.
pub fn is_acceptable(lowered: &str) -> (ok: bool)
    ensures
        ok == acceptable(lowered@),
{
    let v = chars_of(lowered);
    v.len() > 0 && !ends_with_text(&v, &chars_of("(bot)")) && !contains_text(
        &v,
        &chars_of("system"),
    ) && !contains_text(&v, &chars_of("admin"))
}

/// A name without the whitespace around it.
pub fn trimmed(name: &str) -> (inner: String)
    ensures
        inner@ == trim(name@),
{
    let v = chars_of(name);
    let (from, to) = trim_range(&v);
    string_of_range(&v, from, to)
}

/// Whether `name` may be used as a user's name: whether its trimmed,
/// lower-case form is acceptable.
pub fn validate_name(name: &str) -> (ok: bool)
    ensures
        ok == acceptable(lowercase(trim(name@))),
{
    let inner = trimmed(name);
    let lowered = to_lowercase(inner.as_str());
    is_acceptable(lowered.as_str())
}

} // verus!
