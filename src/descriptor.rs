//! Descriptors: what a command declares of its positional arguments and
//! named properties.
use vstd::prelude::*;
use vstd::map::*;

verus! {

/// The kind of value an argument or property takes.
#[derive(Clone, Copy, Debug, PartialEq, Eq, Structural)]
pub enum TypeTag {
    String,
    Number,
    Path,
    Bool,
    /// Strings separated by the given character.
    List(char),
}

/// One declared value: a positional argument (required) or a property
/// (optional).
#[derive(Clone, Debug, PartialEq, Eq)]
pub struct ValueDescription {
    pub hint: String,
    pub kind: TypeTag,
    pub optional: bool,
}

/// The mathematical value of a [`ValueDescription`].
pub struct ValueView {
    pub hint: Seq<char>,
    pub kind: TypeTag,
    pub optional: bool,
}

impl View for ValueDescription {
    type V = ValueView;

    open spec fn view(&self) -> ValueView {
        ValueView { hint: self.hint@, kind: self.kind, optional: self.optional }
    }
}

/// A named property that a command accepts.
#[derive(Clone, Copy, Debug)]
pub struct Property<'a> {
    pub name: &'a str,
    pub hint: &'a str,
    pub tag: TypeTag,
}

/// What a property declares once it stands in a descriptor: it is optional.
pub open spec fn property_value(p: Property) -> ValueView {
    ValueView { hint: p.hint@, kind: p.tag, optional: true }
}

/// A property list seen as a map from name to value; a later entry wins.
pub open spec fn entries_map(s: Seq<(String, ValueDescription)>) -> Map<Seq<char>, ValueView>
    decreases s.len(),
{
    if s.len() == 0 {
        Map::empty()
    } else {
        entries_map(s.drop_last()).insert(s.last().0@, s.last().1@)
    }
}

/// No two entries share a name.
pub open spec fn unique_names(s: Seq<(String, ValueDescription)>) -> bool {
    forall|i: int, j: int| 0 <= i < j < s.len() ==> s[i].0@ != s[j].0@
}

/// The mathematical value of a [`CommandDescriptor`].
pub struct CommandView {
    pub phrase: Seq<char>,
    pub subjects: Seq<ValueView>,
    pub properties: Map<Seq<char>, ValueView>,
}

/// The static description of one command: its phrase, its positional
/// arguments in order, and its properties by name.
#[derive(Clone, Debug, PartialEq, Eq)]
pub struct CommandDescriptor {
    phrase: String,
    subjects: Vec<ValueDescription>,
    properties: Vec<(String, ValueDescription)>,
}

impl View for CommandDescriptor {
    type V = CommandView;

    closed spec fn view(&self) -> CommandView {
        CommandView {
            phrase: self.phrase@,
            subjects: self.subjects@.map_values(|v: ValueDescription| v@),
            properties: entries_map(self.properties@),
        }
    }
}

proof fn lemma_entries_map_domain(s: Seq<(String, ValueDescription)>, k: Seq<char>)
    ensures
        entries_map(s).contains_key(k) <==> exists|i: int| 0 <= i < s.len() && s[i].0@ == k,
    decreases s.len(),
{
    if s.len() > 0 {
        lemma_entries_map_domain(s.drop_last(), k);
        if entries_map(s.drop_last()).contains_key(k) {
            let i = choose|i: int| 0 <= i < s.len() - 1 && s.drop_last()[i].0@ == k;
            assert(s[i].0@ == k);
        }
        if exists|i: int| 0 <= i < s.len() && s[i].0@ == k {
            let i = choose|i: int| 0 <= i < s.len() && s[i].0@ == k;
            if i < s.len() - 1 {
                assert(s.drop_last()[i].0@ == k);
            }
        }
    }
}

proof fn lemma_entries_map_value(s: Seq<(String, ValueDescription)>, i: int)
    requires
        unique_names(s),
        0 <= i < s.len(),
    ensures
        entries_map(s).contains_key(s[i].0@),
        entries_map(s)[s[i].0@] == s[i].1@,
    decreases s.len(),
{
    if i < s.len() - 1 {
        lemma_entries_map_value(s.drop_last(), i);
        assert(s.drop_last()[i] == s[i]);
    }
}

proof fn lemma_entries_map_update(
    s: Seq<(String, ValueDescription)>,
    i: int,
    e: (String, ValueDescription),
)
    requires
        unique_names(s),
        0 <= i < s.len(),
        s[i].0@ == e.0@,
    ensures
        entries_map(s.update(i, e)) == entries_map(s).insert(e.0@, e.1@),
    decreases s.len(),
{
    let t = s.update(i, e);
    if i == s.len() - 1 {
        assert(t.drop_last() =~= s.drop_last());
        assert_maps_equal!(entries_map(t), entries_map(s).insert(e.0@, e.1@));
    } else {
        assert(t.drop_last() =~= s.drop_last().update(i, e));
        lemma_entries_map_update(s.drop_last(), i, e);
        assert(s.last().0@ != e.0@);
        assert_maps_equal!(entries_map(t), entries_map(s).insert(e.0@, e.1@));
    }
}

impl CommandDescriptor {
    /// Names of properties are unique.
    pub closed spec fn wf(&self) -> bool {
        unique_names(self.properties@)
    }

    /// A descriptor with the given phrase and nothing declared yet.
    pub fn new(phrase: String) -> (r: Self)
        ensures
            r.wf(),
            r@.phrase == phrase@,
            r@.subjects == Seq::<ValueView>::empty(),
            r@.properties == Map::<Seq<char>, ValueView>::empty(),
    {
        let r = CommandDescriptor { phrase, subjects: Vec::new(), properties: Vec::new() };
        assert(r@.subjects =~= Seq::<ValueView>::empty());
        r
    }

    /// Appends one positional argument.
    pub fn push_subject(&mut self, v: ValueDescription)
        requires
            old(self).wf(),
        ensures
            final(self).wf(),
            final(self)@.phrase == old(self)@.phrase,
            final(self)@.subjects == old(self)@.subjects.push(v@),
            final(self)@.properties == old(self)@.properties,
    {
        self.subjects.push(v);
        assert(self@.subjects =~= old(self)@.subjects.push(v@));
    }

    /// Declares property `name`, replacing an earlier declaration of it.
    pub fn insert_property(&mut self, name: String, v: ValueDescription)
        requires
            old(self).wf(),
        ensures
            final(self).wf(),
            final(self)@.phrase == old(self)@.phrase,
            final(self)@.subjects == old(self)@.subjects,
            final(self)@.properties == old(self)@.properties.insert(name@, v@),
    {
        let n = self.properties.len();
        let mut i: usize = 0;
        while i < n
            invariant
                *self == *old(self),
                unique_names(self.properties@),
                n == self.properties@.len(),
                i <= n,
                forall|j: int| 0 <= j < i ==> self.properties@[j].0@ != name@,
            decreases n - i,
        {
            if self.properties[i].0 == name {
                let ghost s = self.properties@;
                let e = (name, v);
                proof {
                    lemma_entries_map_update(s, i as int, e);
                }
                self.properties.set(i, e);
                assert(self.properties@ == s.update(i as int, e));
                assert(unique_names(self.properties@));
                return;
            }
            i = i + 1;
        }
        let ghost s = self.properties@;
        self.properties.push((name, v));
        assert(self.properties@.drop_last() =~= s);
    }

    pub fn phrase(&self) -> (r: &str)
        ensures
            r@ == self@.phrase,
    {
        self.phrase.as_str()
    }

    /// The declaration of property `name`, if there is one.
    pub fn property(&self, name: &str) -> (r: Option<&ValueDescription>)
        requires
            self.wf(),
        ensures
            r is Some <==> self@.properties.contains_key(name@),
            r matches Some(v) ==> v@ == self@.properties[name@],
    {
        let key = name.to_owned();
        let n = self.properties.len();
        let mut i: usize = 0;
        while i < n
            invariant
                n == self.properties@.len(),
                unique_names(self.properties@),
                key@ == name@,
                i <= n,
                forall|j: int| 0 <= j < i ==> self.properties@[j].0@ != name@,
            decreases n - i,
        {
            if self.properties[i].0 == key {
                proof {
                    lemma_entries_map_value(self.properties@, i as int);
                }
                return Some(&self.properties[i].1);
            }
            i = i + 1;
        }
        proof {
            lemma_entries_map_domain(self.properties@, name@);
        }
        None
    }

    /// The declared properties, each name once.
    pub fn properties(&self) -> (r: &Vec<(String, ValueDescription)>)
        requires
            self.wf(),
        ensures
            unique_names(r@),
            entries_map(r@) == self@.properties,
    {
        &self.properties
    }

    /// The positional arguments, in order.
    pub fn subjects(&self) -> (r: &Vec<ValueDescription>)
        ensures
            r@.map_values(|v: ValueDescription| v@) == self@.subjects,
    {
        &self.subjects
    }
}

} // verus!
