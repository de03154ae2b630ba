//! Names of files and packages, and the sets and maps that are keyed by file name.

use vstd::prelude::*;

use crate::text;

verus! {

/// A file is named by its output path.
pub type FileId = String;

/// A package is named by a 128-bit identifier.
#[derive(Clone, Copy, Debug, PartialEq, Eq, PartialOrd, Ord, Hash, Structural)]
pub struct PackageId {
    pub raw: u128,
}

/// A hexadecimal digit.
pub open spec fn hex_char(digit: int) -> char {
    if digit == 10 {
        'a'
    } else if digit == 11 {
        'b'
    } else if digit == 12 {
        'c'
    } else if digit == 13 {
        'd'
    } else if digit == 14 {
        'e'
    } else if digit == 15 {
        'f'
    } else {
        text::digit_char(digit as nat)
    }
}

/// Which hexadecimal digit, counted from the left, stands at a position of a hyphenated UUID.
pub open spec fn uuid_digit(at: int) -> int {
    if at < 8 {
        at
    } else if at < 13 {
        at - 1
    } else if at < 18 {
        at - 2
    } else if at < 23 {
        at - 3
    } else {
        at - 4
    }
}

/// The hyphenated notation of a UUID, in lower case.
pub open spec fn uuid_text(raw: u128) -> Seq<char> {
    Seq::new(
        36,
        |at: int|
            if at == 8 || at == 13 || at == 18 || at == 23 {
                '-'
            } else {
                hex_char((raw as int / vstd::arithmetic::power::pow(16, (31 - uuid_digit(at)) as nat)) % 16)
            },
    )
}

/// What `Uuid::parse_str` of the `uuid` crate makes of a text.
pub uninterp spec fn uuid_of(text: Seq<char>) -> Option<u128>;

/// `Uuid::parse_str` of `uuid` reads the notations that the crate writes; the hyphenated one is
/// read back as the number it was made of. What it makes of other texts is named only.
#[verifier::external_body]
fn parse_uuid(text: &str) -> (raw: Option<u128>)
    ensures
        raw == uuid_of(text@),
        forall|number: u128| text@ == #[trigger] uuid_text(number) ==> raw == Some(number),
{
    match uuid::Uuid::parse_str(text) {
        Ok(id) => Some(id.as_u128()),
        Err(_) => None,
    }
}

/// The `Display` text of a `Uuid` of `uuid` is its hyphenated notation in lower case.
#[verifier::external_body]
fn format_uuid(raw: u128) -> (text: String)
    ensures
        text@ == uuid_text(raw),
{
    uuid::Uuid::from_u128(raw).to_string()
}

impl PackageId {
    /// The package that a text names.
    pub fn parse(text: &str) -> (id: Option<PackageId>)
        ensures
            match id {
                Some(package) => uuid_of(text@) == Some(package.raw),
                None => uuid_of(text@) is None,
            },
            forall|package: PackageId|
                text@ == #[trigger] package.text() ==> id == Some(package),
    {
        match parse_uuid(text) {
            Some(raw) => Some(PackageId { raw }),
            None => None,
        }
    }

    /// The text that names the package.
    pub open spec fn text(self) -> Seq<char> {
        uuid_text(self.raw)
    }

    /// The text that names the package.
    pub fn to_text(self) -> (text: String)
        ensures
            text@ == self.text(),
    {
        format_uuid(self.raw)
    }
}

/// The texts of a list of strings.
pub open spec fn texts(list: Seq<String>) -> Seq<Seq<char>> {
    list.map_values(|text: String| text@)
}

/// Position of the first entry of `list` that equals `id`, or its length where there is none.
pub fn position_of(list: &Vec<FileId>, id: &str) -> (at: usize)
    ensures
        at <= list.len(),
        at < list.len() <==> texts(list@).contains(id@),
        at < list.len() ==> list@[at as int]@ == id@,
        forall|j: int| 0 <= j < at ==> list@[j]@ != id@,
{
    let mut i: usize = 0;
    while i < list.len()
        invariant
            i <= list.len(),
            forall|j: int| 0 <= j < i ==> list@[j]@ != id@,
        decreases list.len() - i,
    {
        if *list[i].as_str() == *id {
            assert(texts(list@)[i as int] == id@);
            return i;
        }
        i = i + 1;
    }
    i
}

/// Whether `id` is an entry of `list`.
pub fn lists(list: &Vec<FileId>, id: &str) -> (found: bool)
    ensures
        found == texts(list@).contains(id@),
{
    position_of(list, id) < list.len()
}

/// Whether two lists name the same files in the same order.
pub fn same_ids(a: &Vec<FileId>, b: &Vec<FileId>) -> (same: bool)
    ensures
        same == (texts(a@) == texts(b@)),
{
    assert(texts(a@).len() == a@.len() && texts(b@).len() == b@.len());
    a.len() == b.len() && starts_with_ids(a, b)
}

/// Whether `list` begins with the entries of `prefix`.
pub fn starts_with_ids(list: &Vec<FileId>, prefix: &Vec<FileId>) -> (starts: bool)
    ensures
        starts == texts(prefix@).is_prefix_of(texts(list@)),
        list@.len() == prefix@.len() ==> starts == (texts(list@) == texts(prefix@)),
{
    if list.len() < prefix.len() {
        return false;
    }
    let mut i: usize = 0;
    while i < prefix.len()
        invariant
            i <= prefix.len() <= list.len(),
            forall|j: int| 0 <= j < i ==> #[trigger] prefix@[j]@ == list@[j]@,
        decreases prefix.len() - i,
    {
        if *list[i].as_str() != *prefix[i].as_str() {
            assert(texts(prefix@)[i as int] != texts(list@)[i as int]);
            assert(texts(list@).take(prefix@.len() as int)[i as int] == texts(list@)[i as int]);
            return false;
        }
        i = i + 1;
    }
    proof {
        assert forall|j: int| 0 <= j < prefix@.len() implies texts(prefix@)[j] == texts(list@)[j] by {
            assert(prefix@[j]@ == list@[j]@);
        }
        assert(texts(list@).take(prefix@.len() as int) =~= texts(prefix@));
        if list@.len() == prefix@.len() {
            assert(texts(list@) =~= texts(prefix@));
        }
    }
    true
}

/// A copy of a list of file names.
pub fn copy_ids(list: &Vec<FileId>) -> (copy: Vec<FileId>)
    ensures
        copy@ == list@,
{
    let mut copy: Vec<FileId> = Vec::new();
    let mut i: usize = 0;
    while i < list.len()
        invariant
            i <= list.len(),
            copy@ == list@.take(i as int),
        decreases list.len() - i,
    {
        copy.push(list[i].clone());
        i = i + 1;
    }
    copy
}

/// Appending an entry to a list of texts adds it to the texts that the list holds.
pub proof fn lemma_push_to_set(list: Seq<Seq<char>>, text: Seq<char>)
    ensures
        list.push(text).to_set() == list.to_set().insert(text),
{
    let longer = list.push(text);
    assert forall|t: Seq<char>| longer.to_set().contains(t) == list.to_set().insert(text).contains(
        t,
    ) by {
        assert(longer[list.len() as int] == text);
        if list.contains(t) {
            let j = choose|j: int| 0 <= j < list.len() && list[j] == t;
            assert(longer[j] == t);
        }
    }
    assert(longer.to_set() =~= list.to_set().insert(text));
}

/// Dropping an entry of a list of distinct texts takes it out of the texts that the list holds.
pub proof fn lemma_remove_to_set(list: Seq<Seq<char>>, at: int)
    requires
        list.no_duplicates(),
        0 <= at < list.len(),
    ensures
        list.remove(at).to_set() == list.to_set().remove(list[at]),
        list.remove(at).no_duplicates(),
{
    let shorter = list.remove(at);
    assert forall|t: Seq<char>| shorter.to_set().contains(t) == list.to_set().remove(
        list[at],
    ).contains(t) by {
        if list.contains(t) && t != list[at] {
            let j = choose|j: int| 0 <= j < list.len() && list[j] == t;
            if j < at {
                assert(shorter[j] == t);
            } else {
                assert(shorter[j - 1] == t);
            }
        }
        if shorter.contains(t) {
            let j = choose|j: int| 0 <= j < shorter.len() && shorter[j] == t;
            if j < at {
                assert(list[j] == t);
            } else {
                assert(list[j + 1] == t);
            }
        }
    }
    assert(shorter.to_set() =~= list.to_set().remove(list[at]));
}

/// A set of file names.
#[derive(Debug, PartialEq, Eq)]
pub struct FileIdSet {
    ids: Vec<FileId>,
}

impl View for FileIdSet {
    type V = Set<Seq<char>>;

    closed spec fn view(&self) -> Set<Seq<char>> {
        texts(self.ids@).to_set()
    }
}

impl FileIdSet {
    #[verifier::type_invariant]
    spec fn distinct(self) -> bool {
        texts(self.ids@).no_duplicates()
    }

    /// The empty set.
    pub fn new() -> (set: FileIdSet)
        ensures
            set@ == Set::<Seq<char>>::empty(),
    {
        let set = FileIdSet { ids: Vec::new() };
        assert(set@ =~= Set::empty());
        set
    }

    /// Whether `id` is a member.
    pub fn contains(&self, id: &str) -> (found: bool)
        ensures
            found == self@.contains(id@),
    {
        position_of(&self.ids, id) < self.ids.len()
    }

    /// How many members there are.
    pub fn len(&self) -> (count: usize)
        ensures
            count == self@.len(),
            self@.finite(),
    {
        proof {
            use_type_invariant(self);
            texts(self.ids@).unique_seq_to_set();
        }
        self.ids.len()
    }

    /// Whether there is no member.
    pub fn is_empty(&self) -> (empty: bool)
        ensures
            empty == (self@ == Set::<Seq<char>>::empty()),
    {
        proof {
            if self.ids@.len() > 0 {
                assert(texts(self.ids@).contains(texts(self.ids@)[0]));
                assert(self@.contains(texts(self.ids@)[0]));
            } else {
                assert(self@ =~= Set::empty());
            }
        }
        self.ids.len() == 0
    }

    /// Adds `id`; tells whether it was new.
    pub fn insert(&mut self, id: FileId) -> (added: bool)
        ensures
            final(self)@ == old(self)@.insert(id@),
            added == !old(self)@.contains(id@),
    {
        proof {
            use_type_invariant(&*self);
        }
        if self.contains(&id) {
            assert(self@ =~= self@.insert(id@));
            return false;
        }
        let mut ids: Vec<FileId> = Vec::new();
        std::mem::swap(&mut ids, &mut self.ids);
        ids.push(id);
        proof {
            assert(texts(ids@) =~= texts(old(self).ids@).push(id@));
            lemma_push_to_set(texts(old(self).ids@), id@);
        }
        self.ids = ids;
        true
    }

    /// Takes `id` out; tells whether it was a member.
    pub fn remove(&mut self, id: &str) -> (removed: bool)
        ensures
            final(self)@ == old(self)@.remove(id@),
            removed == old(self)@.contains(id@),
    {
        proof {
            use_type_invariant(&*self);
        }
        let at: usize = position_of(&self.ids, id);
        if at == self.ids.len() {
            assert(self@ =~= self@.remove(id@));
            return false;
        }
        let mut ids: Vec<FileId> = Vec::new();
        std::mem::swap(&mut ids, &mut self.ids);
        ids.remove(at);
        proof {
            assert(texts(ids@) =~= texts(old(self).ids@).remove(at as int));
            lemma_remove_to_set(texts(old(self).ids@), at as int);
            assert(texts(old(self).ids@)[at as int] == id@);
        }
        self.ids = ids;
        true
    }

    /// Takes every member out.
    pub fn clear(&mut self)
        ensures
            final(self)@ == Set::<Seq<char>>::empty(),
    {
        self.ids = Vec::new();
        assert(self@ =~= Set::empty());
    }

    /// Adds every entry of `ids`.
    pub fn extend(&mut self, ids: &Vec<FileId>)
        ensures
            final(self)@ == old(self)@.union(texts(ids@).to_set()),
    {
        let mut i: usize = 0;
        proof {
            assert(texts(ids@).take(0).to_set() =~= Set::empty());
            assert(self@ =~= old(self)@.union(texts(ids@).take(0).to_set()));
        }
        while i < ids.len()
            invariant
                i <= ids.len(),
                self@ == old(self)@.union(texts(ids@).take(i as int).to_set()),
            decreases ids.len() - i,
        {
            self.insert(ids[i].clone());
            proof {
                let listed = texts(ids@);
                assert(listed.take(i as int + 1) =~= listed.take(i as int).push(ids@[i as int]@));
                lemma_push_to_set(listed.take(i as int), ids@[i as int]@);
                assert(self@ =~= old(self)@.union(listed.take(i as int + 1).to_set()));
            }
            i = i + 1;
        }
        assert(texts(ids@).take(i as int) =~= texts(ids@));
    }

    /// The members as a list without repetition.
    pub fn to_vec(&self) -> (ids: Vec<FileId>)
        ensures
            texts(ids@).no_duplicates(),
            texts(ids@).to_set() == self@,
    {
        proof {
            use_type_invariant(self);
        }
        copy_ids(&self.ids)
    }

    /// A copy of the set.
    pub fn copy(&self) -> (set: FileIdSet)
        ensures
            set@ == self@,
    {
        proof {
            use_type_invariant(self);
        }
        FileIdSet { ids: copy_ids(&self.ids) }
    }

    /// The set of the entries of `list`.
    pub fn of(list: &Vec<FileId>) -> (set: FileIdSet)
        ensures
            set@ == texts(list@).to_set(),
    {
        let mut set = FileIdSet::new();
        set.extend(list);
        assert(set@ =~= texts(list@).to_set());
        set
    }
}

/// A map from file names to values.
#[derive(Debug, PartialEq, Eq)]
pub struct FileIdMap<V> {
    keys: Vec<FileId>,
    values: Vec<V>,
}

impl<V> View for FileIdMap<V> {
    type V = Map<Seq<char>, V>;

    closed spec fn view(&self) -> Map<Seq<char>, V> {
        Map::new(
            |key: Seq<char>| texts(self.keys@).contains(key),
            |key: Seq<char>| self.values@[texts(self.keys@).index_of(key)],
        )
    }
}

impl<V> FileIdMap<V> {
    #[verifier::type_invariant]
    spec fn paired(self) -> bool {
        &&& texts(self.keys@).no_duplicates()
        &&& self.keys@.len() == self.values@.len()
    }

    /// The empty map.
    pub fn new() -> (map: FileIdMap<V>)
        ensures
            map@ == Map::<Seq<char>, V>::empty(),
    {
        let map = FileIdMap { keys: Vec::new(), values: Vec::new() };
        assert(map@ =~= Map::empty());
        map
    }

    /// Whether `id` has a value.
    pub fn contains_key(&self, id: &str) -> (found: bool)
        ensures
            found == self@.dom().contains(id@),
    {
        position_of(&self.keys, id) < self.keys.len()
    }

    /// Whether no file has a value.
    pub fn is_empty(&self) -> (empty: bool)
        ensures
            empty == (self@ == Map::<Seq<char>, V>::empty()),
    {
        proof {
            if self.keys@.len() > 0 {
                assert(texts(self.keys@).contains(texts(self.keys@)[0]));
                assert(self@.dom().contains(texts(self.keys@)[0]));
            } else {
                assert(self@ =~= Map::empty());
            }
        }
        self.keys.len() == 0
    }

    /// The value of `id`.
    pub fn get(&self, id: &str) -> (value: Option<&V>)
        ensures
            match value {
                Some(found) => self@.dom().contains(id@) && *found == self@[id@],
                None => !self@.dom().contains(id@),
            },
    {
        proof {
            use_type_invariant(self);
        }
        let at: usize = position_of(&self.keys, id);
        if at < self.keys.len() {
            assert(texts(self.keys@)[at as int] == id@);
            Some(&self.values[at])
        } else {
            None
        }
    }

    /// Gives `id` the value `value`.
    pub fn insert(&mut self, id: FileId, value: V)
        ensures
            final(self)@ == old(self)@.insert(id@, value),
    {
        proof {
            use_type_invariant(&*self);
        }
        let at: usize = position_of(&self.keys, &id);
        let mut keys: Vec<FileId> = Vec::new();
        let mut values: Vec<V> = Vec::new();
        let ghost before = texts(self.keys@);
        if at < self.keys.len() {
            let mut emptied: FileIdMap<V> = FileIdMap { keys: keys, values: values };
            std::mem::swap(&mut emptied, self);
            let FileIdMap { keys: kept, values: mut changed } = emptied;
            changed.set(at, value);
            *self = FileIdMap { keys: kept, values: changed };
            proof {
                assert(before[at as int] == id@);
                assert(self@ =~= old(self)@.insert(id@, value));
            }
        } else {
            let mut emptied: FileIdMap<V> = FileIdMap { keys: keys, values: values };
            std::mem::swap(&mut emptied, self);
            let FileIdMap { keys: mut longer_keys, values: mut longer_values } = emptied;
            longer_keys.push(id);
            longer_values.push(value);
            proof {
                assert(texts(longer_keys@) =~= before.push(id@));
            }
            *self = FileIdMap { keys: longer_keys, values: longer_values };
            proof {
                let after = texts(self.keys@);
                lemma_push_to_set(before, id@);
                assert forall|key: Seq<char>| after.contains(key) == (before.contains(key) || key
                    == id@) by {
                    assert(after.to_set().contains(key) == before.to_set().insert(id@).contains(
                        key,
                    ));
                }
                assert forall|key: Seq<char>| before.contains(key) implies after.index_of(key)
                    == before.index_of(key) by {
                    let j = before.index_of(key);
                    assert(after[j] == key);
                    assert(after[after.index_of(key)] == key);
                }
                assert(after[before.len() as int] == id@);
                assert(after.index_of(id@) == before.len());
                assert(self@ =~= old(self)@.insert(id@, value));
            }
        }
    }

    /// Takes the value of `id` out; tells whether there was one.
    pub fn remove(&mut self, id: &str) -> (removed: bool)
        ensures
            final(self)@ == old(self)@.remove(id@),
            removed == old(self)@.dom().contains(id@),
    {
        proof {
            use_type_invariant(&*self);
        }
        let at: usize = position_of(&self.keys, id);
        if at == self.keys.len() {
            assert(self@ =~= self@.remove(id@));
            return false;
        }
        let ghost before = texts(self.keys@);
        let mut emptied: FileIdMap<V> = FileIdMap { keys: Vec::new(), values: Vec::new() };
        std::mem::swap(&mut emptied, self);
        let FileIdMap { mut keys, mut values } = emptied;
        keys.remove(at);
        values.remove(at);
        proof {
            assert(texts(keys@) =~= before.remove(at as int));
            lemma_remove_to_set(before, at as int);
            assert(before[at as int] == id@);
        }
        *self = FileIdMap { keys, values };
        proof {
            let after = texts(self.keys@);
            assert forall|key: Seq<char>| after.contains(key) == (before.contains(key) && key
                != id@) by {
                assert(after.to_set().contains(key) == before.to_set().remove(id@).contains(key));
            }
            assert forall|key: Seq<char>| after.contains(key) implies self.values@[after.index_of(
                key,
            )] == old(self).values@[before.index_of(key)] by {
                let j = after.index_of(key);
                let k = before.index_of(key);
                assert(after[j] == key && before[k] == key);
                if j < at {
                    assert(before[j] == key);
                } else {
                    assert(before[j + 1] == key);
                }
            }
            assert(self@ =~= old(self)@.remove(id@));
        }
        true
    }

    /// The names that have a value, as a list without repetition.
    pub fn keys(&self) -> (ids: Vec<FileId>)
        ensures
            texts(ids@).no_duplicates(),
            texts(ids@).to_set() == self@.dom(),
    {
        proof {
            use_type_invariant(self);
            assert(texts(self.keys@).to_set() =~= self@.dom());
        }
        copy_ids(&self.keys)
    }
}

impl FileIdMap<u64> {
    /// Takes over every entry of another map.
    pub fn extend(&mut self, other: &FileIdMap<u64>)
        ensures
            final(self)@ == old(self)@.union_prefer_right(other@),
    {
        let keys = other.keys();
        let ghost listed = texts(keys@);
        let mut i: usize = 0;
        while i < keys.len()
            invariant
                i <= keys.len(),
                listed == texts(keys@),
                listed.to_set() == other@.dom(),
                forall|key: Seq<char>| #[trigger]
                    self@.dom().contains(key) <==> old(self)@.dom().contains(key) || listed.take(
                        i as int,
                    ).contains(key),
                forall|key: Seq<char>| #[trigger]
                    self@.dom().contains(key) ==> self@[key] == if listed.take(i as int).contains(
                        key,
                    ) {
                        other@[key]
                    } else {
                        old(self)@[key]
                    },
            decreases keys.len() - i,
        {
            let key = &keys[i];
            proof {
                assert(listed[i as int] == key@);
                assert(listed.to_set().contains(key@));
                assert(listed.take(i as int + 1) =~= listed.take(i as int).push(key@));
                lemma_push_to_set(listed.take(i as int), key@);
                assert forall|text: Seq<char>| #[trigger] listed.take(i as int + 1).contains(text)
                    == (listed.take(i as int).contains(text) || text == key@) by {
                    assert(listed.take(i as int + 1).to_set().contains(text) == listed.take(
                        i as int,
                    ).to_set().insert(key@).contains(text));
                }
            }
            if let Some(value) = other.get(key) {
                self.insert(key.clone(), *value);
            }
            i = i + 1;
        }
        proof {
            assert(listed.take(i as int) =~= listed);
            assert forall|text: Seq<char>| listed.contains(text) == other@.dom().contains(text) by {
                assert(listed.to_set().contains(text) == other@.dom().contains(text));
            }
            assert(self@ =~= old(self)@.union_prefer_right(other@));
        }
    }

    /// A copy of the map.
    pub fn copy(&self) -> (copy: FileIdMap<u64>)
        ensures
            copy@ == self@,
    {
        let mut copy: FileIdMap<u64> = FileIdMap::new();
        copy.extend(self);
        assert(copy@ =~= self@);
        copy
    }
}

} // verus!
