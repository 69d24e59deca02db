//! The data model: attribute values, items, key schemas and table metadata.
use vstd::prelude::*;
use crate::text::{chars_of, clone_bytes, clone_strings, str_eq};

verus! {

/// The role of a key attribute.
#[derive(Clone, Copy, Debug, PartialEq, Eq, Structural)]
pub enum KeyType {
    Hash,
    Range,
}

/// The type of a key attribute.
#[derive(Clone, Copy, Debug, PartialEq, Eq, Structural)]
pub enum ScalarAttributeType {
    S,
    N,
    B,
}

/// One attribute of a key schema.
#[derive(Debug, PartialEq, Eq)]
pub struct KeySchemaElement {
    pub attribute_name: String,
    pub key_type: KeyType,
}

/// The declared type of an attribute.
#[derive(Debug, PartialEq, Eq)]
pub struct AttributeDefinition {
    pub attribute_name: String,
    pub attribute_type: ScalarAttributeType,
}

/// An attribute value. Strings, numbers (in their decimal text) and binary
/// values are held as they are; a value of any other kind is held as its JSON
/// text.
#[derive(Debug, PartialEq, Eq)]
pub enum AttributeValue {
    S(String),
    N(String),
    B(Vec<u8>),
    Json(String),
}

/// What an attribute value holds.
pub enum AttributeView {
    S(Seq<char>),
    N(Seq<char>),
    B(Seq<u8>),
    Json(Seq<char>),
}

impl View for AttributeValue {
    type V = AttributeView;

    open spec fn view(&self) -> AttributeView {
        match self {
            AttributeValue::S(s) => AttributeView::S(s@),
            AttributeValue::N(s) => AttributeView::N(s@),
            AttributeValue::B(b) => AttributeView::B(b@),
            AttributeValue::Json(s) => AttributeView::Json(s@),
        }
    }
}

impl Clone for AttributeValue {
    fn clone(&self) -> (r: AttributeValue)
        ensures
            r@ == self@,
    {
        match self {
            AttributeValue::S(s) => AttributeValue::S(s.clone()),
            AttributeValue::N(s) => AttributeValue::N(s.clone()),
            AttributeValue::B(b) => AttributeValue::B(clone_bytes(b)),
            AttributeValue::Json(s) => AttributeValue::Json(s.clone()),
        }
    }
}

/// Whether two byte strings are the same.
pub fn same_bytes(a: &Vec<u8>, b: &Vec<u8>) -> (r: bool)
    ensures
        r == (a@ == b@),
{
    if a.len() != b.len() {
        return false;
    }
    let mut i: usize = 0;
    while i < a.len()
        invariant
            i <= a@.len(),
            a@.len() == b@.len(),
            forall|k: int| 0 <= k < i ==> a@[k] == b@[k],
        decreases a@.len() - i,
    {
        if a[i] != b[i] {
            assert(a@[i as int] != b@[i as int]);
            return false;
        }
        i = i + 1;
    }
    proof {
        assert(a@ =~= b@);
    }
    true
}

impl AttributeValue {
    /// Whether two values hold the same.
    pub fn same(&self, other: &AttributeValue) -> (r: bool)
        ensures
            r == (self@ == other@),
    {
        match (self, other) {
            (AttributeValue::S(a), AttributeValue::S(b)) => str_eq(a.as_str(), b.as_str()),
            (AttributeValue::N(a), AttributeValue::N(b)) => str_eq(a.as_str(), b.as_str()),
            (AttributeValue::B(a), AttributeValue::B(b)) => same_bytes(a, b),
            (AttributeValue::Json(a), AttributeValue::Json(b)) => str_eq(a.as_str(), b.as_str()),
            _ => false,
        }
    }
}

/// The map that a list of entries stands for.
spec fn entries_map(entries: Seq<(String, AttributeValue)>) -> Map<Seq<char>, AttributeView>
    decreases entries.len(),
{
    if entries.len() == 0 {
        Map::empty()
    } else {
        entries_map(entries.drop_last()).insert(entries.last().0@, entries.last().1@)
    }
}

/// No name occurs twice.
spec fn distinct_names(entries: Seq<(String, AttributeValue)>) -> bool {
    forall|i: int, j: int|
        0 <= i < j < entries.len() ==> #[trigger] entries[i].0@ != #[trigger] entries[j].0@
}

proof fn lemma_entries_map(entries: Seq<(String, AttributeValue)>)
    requires
        distinct_names(entries),
    ensures
        entries_map(entries).dom().finite(),
        entries_map(entries).dom().len() == entries.len(),
        forall|i: int|
            0 <= i < entries.len() ==> #[trigger] entries_map(entries).dom().contains(
                entries[i].0@,
            ) && entries_map(entries)[entries[i].0@] == entries[i].1@,
        forall|k: Seq<char>| #[trigger]
            entries_map(entries).dom().contains(k) ==> exists|i: int|
                0 <= i < entries.len() && entries[i].0@ == k,
    decreases entries.len(),
{
    if entries.len() > 0 {
        let rest = entries.drop_last();
        lemma_entries_map(rest);
        let n = entries.len() - 1;
        assert forall|i: int| 0 <= i < entries.len() implies #[trigger] entries_map(
            entries,
        ).dom().contains(entries[i].0@) && entries_map(entries)[entries[i].0@]
            == entries[i].1@ by {
            if i < n {
                assert(rest[i] == entries[i]);
                assert(entries_map(rest).dom().contains(rest[i].0@));
            }
        }
        assert forall|k: Seq<char>| #[trigger] entries_map(entries).dom().contains(k) implies exists|
            i: int,
        |
            0 <= i < entries.len() && entries[i].0@ == k by {
            if k == entries[n].0@ {
            } else {
                assert(entries_map(rest).dom().contains(k));
                let i = choose|i: int| 0 <= i < rest.len() && rest[i].0@ == k;
                assert(entries[i].0@ == k);
            }
        }
        if entries_map(rest).dom().contains(entries[n].0@) {
            let i = choose|i: int| 0 <= i < rest.len() && rest[i].0@ == entries[n].0@;
            assert(entries[i].0@ == entries[n].0@);
        }
    }
}

/// An item: a map from attribute names to values.
#[derive(Debug, PartialEq, Eq)]
pub struct Item {
    entries: Vec<(String, AttributeValue)>,
}

impl View for Item {
    type V = Map<Seq<char>, AttributeView>;

    closed spec fn view(&self) -> Map<Seq<char>, AttributeView> {
        entries_map(self.entries@)
    }
}

impl Item {
    #[verifier::type_invariant]
    spec fn names_are_distinct(self) -> bool {
        distinct_names(self.entries@)
    }

    /// The names of the attributes, in the order in which they were first set.
    pub closed spec fn names(self) -> Seq<Seq<char>> {
        Seq::new(self.entries@.len(), |i: int| self.entries@[i].0@)
    }

    /// An item without attributes.
    pub fn new() -> (r: Item)
        ensures
            r@ == Map::<Seq<char>, AttributeView>::empty(),
            r.names() == Seq::<Seq<char>>::empty(),
    {
        Item { entries: Vec::new() }
    }

    /// The number of attributes.
    pub fn len(&self) -> (r: usize)
        ensures
            self@.dom().finite(),
            r == self@.dom().len(),
    {
        proof {
            use_type_invariant(self);
            lemma_entries_map(self.entries@);
        }
        self.entries.len()
    }

    /// The position of an attribute in the list of entries.
    fn position(&self, name: &str) -> (r: Option<usize>)
        ensures
            match r {
                Some(i) => i < self.entries@.len() && self.entries@[i as int].0@ == name@
                    && self@.dom().contains(name@) && self@[name@] == self.entries@[i as int].1@,
                None => !self@.dom().contains(name@) && forall|i: int|
                    0 <= i < self.entries@.len() ==> (#[trigger] self.entries@[i]).0@ != name@,
            },
    {
        proof {
            use_type_invariant(self);
            lemma_entries_map(self.entries@);
        }
        let mut i: usize = 0;
        while i < self.entries.len()
            invariant
                i <= self.entries@.len(),
                forall|k: int| 0 <= k < i ==> (#[trigger] self.entries@[k]).0@ != name@,
                forall|i: int|
                    0 <= i < self.entries@.len() ==> #[trigger] self@.dom().contains(
                        self.entries@[i].0@,
                    ) && self@[self.entries@[i].0@] == self.entries@[i].1@,
            decreases self.entries@.len() - i,
        {
            if str_eq(self.entries[i].0.as_str(), name) {
                assert(self@.dom().contains(self.entries@[i as int].0@));
                return Some(i);
            }
            i = i + 1;
        }
        None
    }

    /// Set an attribute.
    pub fn insert(&mut self, name: String, value: AttributeValue)
        ensures
            final(self)@ == old(self)@.insert(name@, value@),
            final(self).names() == (if old(self)@.dom().contains(name@) {
                old(self).names()
            } else {
                old(self).names().push(name@)
            }),
    {
        let ghost target = self@.insert(name@, value@);
        let ghost before = self.entries@;
        proof {
            use_type_invariant(&*self);
            lemma_entries_map(before);
        }
        match self.position(name.as_str()) {
            Some(i) => {
                let mut entries: Vec<(String, AttributeValue)> = Vec::new();
                std::mem::swap(&mut entries, &mut self.entries);
                entries.set(i, (name, value));
                let ghost after = entries@;
                proof {
                    assert(distinct_names(after)) by {
                        assert forall|a: int, b: int| 0 <= a < b < after.len() implies #[trigger] after[a].0@
                            != #[trigger] after[b].0@ by {
                            assert(before[a].0@ != before[b].0@);
                        }
                    }
                    lemma_entries_map(after);
                    assert forall|k: Seq<char>|
                        entries_map(after).dom().contains(k) == target.dom().contains(k) by {
                        if entries_map(after).dom().contains(k) {
                            let j = choose|j: int| 0 <= j < after.len() && after[j].0@ == k;
                            assert(before[j].0@ == k);
                        }
                        if target.dom().contains(k) && k != name@ {
                            let j = choose|j: int| 0 <= j < before.len() && before[j].0@ == k;
                            assert(after[j].0@ == k);
                        }
                        assert(entries_map(after).dom().contains(after[i as int].0@));
                    }
                    assert forall|k: Seq<char>| entries_map(after).dom().contains(k) implies entries_map(
                        after,
                    )[k] == target[k] by {
                        let j = choose|j: int| 0 <= j < after.len() && after[j].0@ == k;
                        assert(entries_map(after).dom().contains(after[j].0@));
                        if j != i {
                            assert(before[j].0@ == k);
                            assert(entries_map(before).dom().contains(before[j].0@));
                            if j < i {
                                assert(before[j].0@ != before[i as int].0@);
                            } else {
                                assert(before[i as int].0@ != before[j].0@);
                            }
                        }
                    }
                    assert(entries_map(after) =~= target);
                }
                self.entries = entries;
            },
            None => {
                let mut entries: Vec<(String, AttributeValue)> = Vec::new();
                std::mem::swap(&mut entries, &mut self.entries);
                entries.push((name, value));
                proof {
                    assert(entries@.drop_last() =~= before);
                }
                self.entries = entries;
            },
        }
    }

    /// Look an attribute up.
    pub fn get(&self, name: &str) -> (r: Option<&AttributeValue>)
        ensures
            match r {
                Some(v) => self@.dom().contains(name@) && self@[name@] == v@,
                None => !self@.dom().contains(name@),
            },
    {
        match self.position(name) {
            Some(i) => Some(&self.entries[i].1),
            None => None,
        }
    }

    /// Whether the attribute is present.
    pub fn contains_key(&self, name: &str) -> (r: bool)
        ensures
            r == self@.dom().contains(name@),
    {
        self.position(name).is_some()
    }

    /// The attribute at a position, in the order in which the names were first
    /// set; `None` past the last one.
    pub fn entry(&self, i: usize) -> (r: Option<(&String, &AttributeValue)>)
        ensures
            self.names().no_duplicates(),
            self.names().to_set() == self@.dom(),
            self.names().len() == self@.dom().len(),
            match r {
                Some((name, value)) => i < self.names().len() && name@ == self.names()[i as int]
                    && self@[name@] == value@,
                None => i >= self.names().len(),
            },
    {
        proof {
            use_type_invariant(self);
            lemma_entries_map(self.entries@);
            let names = self.names();
            assert forall|a: int, b: int| 0 <= a < names.len() && 0 <= b < names.len() && a
                != b implies names[a] != names[b] by {
                if a < b {
                    assert(self.entries@[a].0@ != self.entries@[b].0@);
                } else {
                    assert(self.entries@[b].0@ != self.entries@[a].0@);
                }
            }
            assert forall|k: Seq<char>| names.to_set().contains(k) == self@.dom().contains(k) by {
                if names.to_set().contains(k) {
                    let j = choose|j: int| 0 <= j < names.len() && names[j] == k;
                    assert(self@.dom().contains(self.entries@[j].0@));
                }
                if self@.dom().contains(k) {
                    assert(entries_map(self.entries@).dom().contains(k));
                    let j = choose|j: int|
                        0 <= j < self.entries@.len() && self.entries@[j].0@ == k;
                    assert(names[j] == k);
                }
            }
            assert(names.to_set() =~= self@.dom());
        }
        if i < self.entries.len() {
            assert(self@.dom().contains(self.entries@[i as int].0@));
            Some((&self.entries[i].0, &self.entries[i].1))
        } else {
            None
        }
    }
}

impl Item {
    /// Every attribute of this item is in the other one, with the same value.
    fn within(&self, other: &Item) -> (r: bool)
        ensures
            r == self@.submap_of(other@),
    {
        proof {
            use_type_invariant(self);
            lemma_entries_map(self.entries@);
        }
        let mut i: usize = 0;
        while i < self.entries.len()
            invariant
                i <= self.entries@.len(),
                forall|k: int|
                    0 <= k < i ==> other@.dom().contains((#[trigger] self.entries@[k]).0@)
                        && other@[self.entries@[k].0@] == self.entries@[k].1@,
                forall|k: int|
                    0 <= k < self.entries@.len() ==> self@.dom().contains(
                        (#[trigger] self.entries@[k]).0@,
                    ) && self@[self.entries@[k].0@] == self.entries@[k].1@,
            decreases self.entries@.len() - i,
        {
            let found = match other.get(self.entries[i].0.as_str()) {
                Some(v) => v.same(&self.entries[i].1),
                None => false,
            };
            if !found {
                assert(self@.dom().contains(self.entries@[i as int].0@));
                return false;
            }
            i = i + 1;
        }
        proof {
            assert forall|k: Seq<char>| self@.dom().contains(k) implies other@.dom().contains(k)
                && self@[k] == other@[k] by {
                assert(entries_map(self.entries@).dom().contains(k));
                let j = choose|j: int| 0 <= j < self.entries@.len() && self.entries@[j].0@ == k;
                assert(self.entries@[j].0@ == k);
            }
        }
        true
    }

    /// Whether two items hold the same attributes.
    pub fn same(&self, other: &Item) -> (r: bool)
        ensures
            r == (self@ == other@),
    {
        let r = self.within(other) && other.within(self);
        proof {
            if r {
                assert forall|k: Seq<char>|
                    self@.dom().contains(k) == other@.dom().contains(k) by {}
                assert(self@.dom() =~= other@.dom());
                assert(self@ =~= other@);
            }
        }
        r
    }
}

impl Clone for Item {
    fn clone(&self) -> (r: Item)
        ensures
            r@ == self@,
            r.names() == self.names(),
    {
        let mut out = Item::new();
        let mut i: usize = 0;
        proof {
            use_type_invariant(self);
            assert(self.entries@.take(0) =~= Seq::empty());
            assert(self.names().take(0) =~= Seq::empty());
        }
        while i < self.entries.len()
            invariant
                i <= self.entries@.len(),
                distinct_names(self.entries@),
                out@ == entries_map(self.entries@.take(i as int)),
                out.names() == self.names().take(i as int),
            decreases self.entries@.len() - i,
        {
            proof {
                let before = self.entries@.take(i as int);
                let name = self.entries@[i as int].0@;
                assert(distinct_names(before)) by {
                    assert forall|a: int, b: int| 0 <= a < b < before.len() implies #[trigger] before[a].0@
                        != #[trigger] before[b].0@ by {
                        assert(self.entries@[a].0@ != self.entries@[b].0@);
                    }
                }
                lemma_entries_map(before);
                if out@.dom().contains(name) {
                    assert(entries_map(before).dom().contains(name));
                    let j = choose|j: int| 0 <= j < before.len() && before[j].0@ == name;
                    assert(self.entries@[j].0@ != self.entries@[i as int].0@);
                }
                assert(self.names().take(i as int).push(name) =~= self.names().take(i + 1));
            }
            out.insert(self.entries[i].0.clone(), self.entries[i].1.clone());
            i = i + 1;
            proof {
                assert(self.entries@.take(i as int).drop_last() =~= self.entries@.take(i - 1));
            }
        }
        proof {
            assert(self.entries@.take(i as int) =~= self.entries@);
            assert(self.names().take(i as int) =~= self.names());
        }
        out
    }
}

/// What an optional item holds.
pub open spec fn opt_item(i: Option<Item>) -> Option<Map<Seq<char>, AttributeView>> {
    match i {
        Some(i) => Some(i@),
        None => None,
    }
}

/// The text without its sign.
pub open spec fn unsigned(s: Seq<char>) -> Seq<char> {
    if s.len() > 0 && s[0] == '-' {
        s.drop_first()
    } else {
        s
    }
}

/// The text is that of an integer in decimal, without needless zeros or signs.
pub open spec fn is_int_text(s: Seq<char>) -> bool {
    &&& unsigned(s).len() > 0
    &&& forall|i: int|
        0 <= i < unsigned(s).len() ==> 48 <= (#[trigger] unsigned(s)[i]) as int <= 57
    &&& unsigned(s)[0] != '0' || s.len() == 1
}

/// A decimal number `unscaled * 10^(-scale)`; `unscaled` is the decimal text of
/// an integer.
#[derive(Debug, PartialEq, Eq)]
pub struct Decimal {
    unscaled: String,
    scale: i64,
}

/// What a decimal number holds.
pub struct DecimalView {
    pub unscaled: Seq<char>,
    pub scale: i64,
}

impl View for Decimal {
    type V = DecimalView;

    closed spec fn view(&self) -> DecimalView {
        DecimalView { unscaled: self.unscaled@, scale: self.scale }
    }
}

fn is_digit(c: char) -> (r: bool)
    ensures
        r == (48 <= c as int <= 57),
{
    let n: u32 = c as u32;
    48 <= n && n <= 57
}

impl Decimal {
    #[verifier::type_invariant]
    spec fn holds_an_integer(self) -> bool {
        is_int_text(self.unscaled@)
    }

    /// A decimal number; `None` where the text is not that of an integer.
    pub fn new(unscaled: String, scale: i64) -> (r: Option<Decimal>)
        ensures
            match r {
                Some(d) => is_int_text(unscaled@) && d@.unscaled == unscaled@ && d@.scale == scale,
                None => !is_int_text(unscaled@),
            },
    {
        let v = chars_of(unscaled.as_str());
        let from: usize = if v.len() > 0 && v[0] == '-' {
            1
        } else {
            0
        };
        let ghost body = unsigned(unscaled@);
        proof {
            assert(body =~= v@.skip(from as int));
        }
        if from == v.len() {
            return None;
        }
        if v[from] == '0' && v.len() != 1 {
            return None;
        }
        let mut i: usize = from;
        while i < v.len()
            invariant
                from <= i <= v@.len(),
                v@ == unscaled@,
                body == v@.skip(from as int),
                body == unsigned(unscaled@),
                forall|k: int| 0 <= k < i - from ==> 48 <= (#[trigger] body[k]) as int <= 57,
            decreases v@.len() - i,
        {
            if !is_digit(v[i]) {
                assert(body[i - from] == v@[i as int]);
                return None;
            }
            i = i + 1;
        }
        Some(Decimal { unscaled, scale })
    }

    /// The integer text of the number.
    pub fn unscaled(&self) -> (r: &String)
        ensures
            r@ == self@.unscaled,
            is_int_text(r@),
    {
        proof {
            use_type_invariant(self);
        }
        &self.unscaled
    }

    /// The scale of the number.
    pub fn scale(&self) -> (r: i64)
        ensures
            r == self@.scale,
    {
        self.scale
    }
}

impl Clone for Decimal {
    fn clone(&self) -> (r: Decimal)
        ensures
            r@ == self@,
    {
        proof {
            use_type_invariant(self);
        }
        Decimal { unscaled: self.unscaled.clone(), scale: self.scale }
    }
}

/// A sort key value in the type of its column.
#[derive(Debug, PartialEq, Eq)]
pub enum SortKeyValue {
    S(String),
    N(Decimal),
    B(Vec<u8>),
}

/// What a sort key value holds.
pub enum SortKeyView {
    S(Seq<char>),
    N(DecimalView),
    B(Seq<u8>),
}

impl View for SortKeyValue {
    type V = SortKeyView;

    open spec fn view(&self) -> SortKeyView {
        match self {
            SortKeyValue::S(s) => SortKeyView::S(s@),
            SortKeyValue::N(n) => SortKeyView::N(n@),
            SortKeyValue::B(b) => SortKeyView::B(b@),
        }
    }
}

/// What an optional sort key value holds.
pub open spec fn opt_sk(sk: Option<SortKeyValue>) -> Option<SortKeyView> {
    match sk {
        Some(s) => Some(s@),
        None => None,
    }
}

/// The type of a sort key value.
pub open spec fn sk_type_of(sk: SortKeyView) -> ScalarAttributeType {
    match sk {
        SortKeyView::S(_) => ScalarAttributeType::S,
        SortKeyView::N(_) => ScalarAttributeType::N,
        SortKeyView::B(_) => ScalarAttributeType::B,
    }
}

impl SortKeyValue {
    /// The type of the value.
    pub fn scalar_type(&self) -> (r: ScalarAttributeType)
        ensures
            r == sk_type_of(self@),
    {
        match self {
            SortKeyValue::S(_) => ScalarAttributeType::S,
            SortKeyValue::N(_) => ScalarAttributeType::N,
            SortKeyValue::B(_) => ScalarAttributeType::B,
        }
    }
}

impl Clone for SortKeyValue {
    fn clone(&self) -> (r: SortKeyValue)
        ensures
            r@ == self@,
    {
        match self {
            SortKeyValue::S(s) => SortKeyValue::S(s.clone()),
            SortKeyValue::N(n) => SortKeyValue::N(n.clone()),
            SortKeyValue::B(b) => SortKeyValue::B(clone_bytes(b)),
        }
    }
}

/// A sort key column, by its type, and its value.
#[derive(Debug, PartialEq, Eq)]
pub struct SortKeyBind {
    pub sk_type: ScalarAttributeType,
    pub value: SortKeyValue,
}

/// Which attributes an index carries besides its keys.
#[derive(Clone, Copy, Debug, PartialEq, Eq, Structural)]
pub enum ProjectionType {
    All,
    KeysOnly,
    Include,
}

/// The projection of an index.
#[derive(Debug, PartialEq, Eq)]
pub struct Projection {
    pub projection_type: ProjectionType,
    pub non_key_attributes: Option<Vec<String>>,
}

impl Clone for Projection {
    fn clone(&self) -> (r: Projection)
        ensures
            r.projection_type == self.projection_type,
            match self.non_key_attributes {
                Some(names) => r.non_key_attributes is Some && r.non_key_attributes->0@ == names@,
                None => r.non_key_attributes is None,
            },
    {
        Projection {
            projection_type: self.projection_type,
            non_key_attributes: match &self.non_key_attributes {
                Some(names) => Some(clone_strings(names)),
                None => None,
            },
        }
    }
}

/// The kind of a secondary index.
#[derive(Clone, Copy, Debug, PartialEq, Eq, Structural)]
pub enum IndexType {
    Gsi,
    Lsi,
}

/// A secondary index as table metadata lists it.
#[derive(Debug, PartialEq, Eq)]
pub struct IndexInfo {
    pub index_name: String,
    pub index_id: String,
    pub index_type: IndexType,
    pub key_schema: Vec<KeySchemaElement>,
    pub projection: Projection,
}

/// The metadata that data operations need. The stream specification is held as
/// its JSON text.
#[derive(Debug, PartialEq, Eq)]
pub struct TableKeyInfo {
    pub table_name: String,
    pub account_id: String,
    pub table_id: String,
    pub key_schema: Vec<KeySchemaElement>,
    pub base_key_schema: Vec<KeySchemaElement>,
    pub attribute_definitions: Vec<AttributeDefinition>,
    pub has_lsi: bool,
    pub global_secondary_indexes: Vec<IndexInfo>,
    pub local_secondary_indexes: Vec<IndexInfo>,
    pub stream_specification: Option<String>,
}

impl Clone for KeySchemaElement {
    fn clone(&self) -> (r: KeySchemaElement)
        ensures
            r == *self,
    {
        KeySchemaElement { attribute_name: self.attribute_name.clone(), key_type: self.key_type }
    }
}

/// A copy of a key schema.
pub fn clone_schema(v: &Vec<KeySchemaElement>) -> (r: Vec<KeySchemaElement>)
    ensures
        r@ == v@,
{
    let mut out: Vec<KeySchemaElement> = Vec::new();
    let mut i: usize = 0;
    while i < v.len()
        invariant
            i <= v@.len(),
            out@ == v@.take(i as int),
        decreases v@.len() - i,
    {
        out.push(v[i].clone());
        i = i + 1;
        proof {
            assert(out@ =~= v@.take(i as int));
        }
    }
    proof {
        assert(v@.take(i as int) =~= v@);
    }
    out
}

} // verus!
