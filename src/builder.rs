//! The incremental builder: one command at a time, then a finalized table.
use vstd::prelude::*;
use crate::descriptor::{CommandDescriptor, CommandView, Property, TypeTag, ValueDescription, ValueView, property_value};
use crate::phrase::{derive_phrase, phrase_of};

verus! {

/// Grows `this` by one element: the elements already there are moved, in
/// order, and `item` is placed last. None is copied or dropped.
pub fn array_push<T>(this: Vec<T>, item: T) -> (r: Vec<T>)
    ensures
        r@ == this@.push(item),
{
    let mut r = this;
    r.push(item);
    r
}

/// The properties of `ps`, declared in order on top of `m`; a later
/// declaration of a name replaces an earlier one.
pub open spec fn declare_all(
    m: Map<Seq<char>, ValueView>,
    ps: Seq<Property>,
) -> Map<Seq<char>, ValueView>
    decreases ps.len(),
{
    if ps.len() == 0 {
        m
    } else {
        declare_all(m, ps.drop_last()).insert(ps.last().name@, property_value(ps.last()))
    }
}

/// A handler together with the descriptor of the command it serves.
#[derive(Debug)]
pub struct Builder<F> {
    handler: F,
    command: CommandDescriptor,
}

impl<F> Builder<F> {
    pub closed spec fn spec_handler(&self) -> F {
        self.handler
    }

    pub closed spec fn spec_command(&self) -> CommandView {
        self.command@
    }

    pub closed spec fn wf(&self) -> bool {
        self.command.wf()
    }

    /// A builder for `handler` whose phrase is derived from `identifier`,
    /// the handler's name: `questions_list` gives `questions.list`.
    pub fn new(handler: F, identifier: &str) -> (r: Self)
        ensures
            r.wf(),
            r.spec_handler() == handler,
            r.spec_command().phrase == derive_phrase(identifier@),
            r.spec_command().subjects == Seq::<ValueView>::empty(),
            r.spec_command().properties == Map::<Seq<char>, ValueView>::empty(),
    {
        Builder { handler, command: CommandDescriptor::new(phrase_of(identifier)) }
    }

    /// Declares one more required positional argument.
    pub fn arg(self, hint: &str, tag: TypeTag) -> (r: Self)
        requires
            self.wf(),
        ensures
            r.wf(),
            r.spec_handler() == self.spec_handler(),
            r.spec_command().phrase == self.spec_command().phrase,
            r.spec_command().subjects == self.spec_command().subjects.push(
                ValueView { hint: hint@, kind: tag, optional: false },
            ),
            r.spec_command().properties == self.spec_command().properties,
    {
        let Builder { handler, mut command } = self;
        command.push_subject(ValueDescription { hint: hint.to_owned(), kind: tag, optional: false });
        Builder { handler, command }
    }

    /// Declares optional properties, in order; a name declared again
    /// replaces its earlier declaration.
    pub fn properties<const N: usize>(self, properties: [Property; N]) -> (r: Self)
        requires
            self.wf(),
        ensures
            r.wf(),
            r.spec_handler() == self.spec_handler(),
            r.spec_command().phrase == self.spec_command().phrase,
            r.spec_command().subjects == self.spec_command().subjects,
            r.spec_command().properties == declare_all(
                self.spec_command().properties,
                properties@,
            ),
    {
        let Builder { handler, mut command } = self;
        let ghost start = command@;
        let mut i: usize = 0;
        while i < N
            invariant
                i <= N,
                N == properties@.len(),
                command.wf(),
                command@.phrase == start.phrase,
                command@.subjects == start.subjects,
                command@.properties == declare_all(
                    start.properties,
                    properties@.subrange(0, i as int),
                ),
            decreases N - i,
        {
            let p = properties[i];
            command.insert_property(
                p.name.to_owned(),
                ValueDescription { hint: p.hint.to_owned(), kind: p.tag, optional: true },
            );
            assert(properties@.subrange(0, i as int + 1).drop_last() =~= properties@.subrange(
                0,
                i as int,
            ));
            i = i + 1;
        }
        assert(properties@.subrange(0, N as int) =~= properties@);
        Builder { handler, command }
    }
}

/// The builder of a command table: a shared state, and one descriptor and
/// one handler for each command appended so far, in the order of appending.
#[derive(Debug)]
pub struct CommandBuilder<T, H> {
    state: T,
    commands: Vec<CommandDescriptor>,
    handlers: Vec<(String, H)>,
}

/// The descriptors of `commands` and the phrases of `handlers` go pairwise
/// together.
pub open spec fn paired<H>(commands: Seq<CommandView>, handlers: Seq<(Seq<char>, H)>) -> bool {
    &&& commands.len() == handlers.len()
    &&& forall|i: int| 0 <= i < commands.len() ==> #[trigger] handlers[i].0 == commands[i].phrase
}

/// `next` is `prev` with one command appended: its descriptor is `c`, its
/// handler `h`; what `prev` held is kept unchanged and in order.
pub open spec fn appended<T, H>(
    prev: CommandBuilder<T, H>,
    next: CommandBuilder<T, H>,
    c: CommandView,
    h: H,
) -> bool {
    &&& next.spec_state() == prev.spec_state()
    &&& next.spec_commands() == prev.spec_commands().push(c)
    &&& next.spec_handlers() == prev.spec_handlers().push((c.phrase, h))
}

impl<T, H> CommandBuilder<T, H> {
    pub closed spec fn spec_state(&self) -> T {
        self.state
    }

    pub closed spec fn spec_commands(&self) -> Seq<CommandView> {
        self.commands@.map_values(|c: CommandDescriptor| c@)
    }

    pub closed spec fn spec_handlers(&self) -> Seq<(Seq<char>, H)> {
        self.handlers@.map_values(|p: (String, H)| (p.0@, p.1))
    }

    /// Every descriptor is well formed, and descriptors and handlers pair up.
    pub closed spec fn wf(&self) -> bool {
        &&& forall|i: int| 0 <= i < self.commands@.len() ==> #[trigger] self.commands@[i].wf()
        &&& paired(self.spec_commands(), self.spec_handlers())
    }

    /// A builder with no command yet.
    pub fn with_state(state: T) -> (r: Self)
        ensures
            r.wf(),
            r.spec_state() == state,
            r.spec_commands().len() == 0,
            r.spec_handlers().len() == 0,
    {
        CommandBuilder { state, commands: Vec::new(), handlers: Vec::new() }
    }

    /// The descriptors appended so far, in order.
    pub fn commands(&self) -> (r: &Vec<CommandDescriptor>)
        ensures
            r@.map_values(|c: CommandDescriptor| c@) == self.spec_commands(),
    {
        &self.commands
    }

    /// Appends the command of `command`: its descriptor, and its handler
    /// bound to a copy of the state by `bind`.
    pub fn command<F, B: FnOnce(T, F) -> H>(self, command: Builder<F>, bind: B) -> (r: Self)
        where
            T: Copy,
        requires
            self.wf(),
            command.wf(),
            bind.requires((self.spec_state(), command.spec_handler())),
        ensures
            r.wf(),
            r.spec_commands().len() == self.spec_commands().len() + 1,
            exists|h: H|
                appended(self, r, command.spec_command(), h) && #[trigger] bind.ensures(
                    (self.spec_state(), command.spec_handler()),
                    h,
                ),
    {
        let CommandBuilder { state, commands, handlers } = self;
        let Builder { handler, command } = command;
        let phrase = command.phrase().to_owned();
        let h = bind(state, handler);
        let ghost hs = handlers@;
        let handlers = array_push(handlers, (phrase, h));
        let commands = array_push(commands, command);
        let r = CommandBuilder { state, commands, handlers };
        assert(r.spec_commands() =~= self.spec_commands().push(command@));
        assert(r.spec_handlers() =~= self.spec_handlers().push((command@.phrase, h)));
        assert(appended(self, r, command@, h));
        r
    }

    /// Finalizes the builder into its table.
    pub fn build(self) -> (r: Table<H>)
        requires
            self.wf(),
        ensures
            r.wf(),
            r.spec_commands() == self.spec_commands(),
            r.spec_handlers() == self.spec_handlers(),
    {
        Table { commands: self.commands, handlers: self.handlers }
    }
}

/// After `cs.len()` appends to an empty builder, the `k`-th appending
/// descriptor `cs[k]` with handler `hs[k]`, the table built from the last
/// builder has exactly `cs.len()` phrase entries, and entry `i` holds the
/// phrase of descriptor `i` with handler `hs[i]`: no entry is lost, added or
/// transposed.
pub proof fn lemma_appends_fill_table<T, H>(
    bs: Seq<CommandBuilder<T, H>>,
    cs: Seq<CommandView>,
    hs: Seq<H>,
    t: Table<H>,
)
    requires
        bs.len() == cs.len() + 1,
        hs.len() == cs.len(),
        bs[0].spec_commands().len() == 0,
        bs[0].spec_handlers().len() == 0,
        forall|k: int| 0 <= k < cs.len() ==> #[trigger] appended(bs[k], bs[k + 1], cs[k], hs[k]),
        t.spec_commands() == bs.last().spec_commands(),
        t.spec_handlers() == bs.last().spec_handlers(),
    ensures
        t.spec_handlers().len() == cs.len(),
        t.spec_commands() == cs,
        forall|i: int| 0 <= i < cs.len() ==> #[trigger] t.spec_handlers()[i] == (cs[i].phrase, hs[i]),
    decreases cs.len(),
{
    lemma_appends_prefix(bs, cs, hs, cs.len() as int);
}

proof fn lemma_appends_prefix<T, H>(
    bs: Seq<CommandBuilder<T, H>>,
    cs: Seq<CommandView>,
    hs: Seq<H>,
    n: int,
)
    requires
        bs.len() == cs.len() + 1,
        hs.len() == cs.len(),
        0 <= n <= cs.len(),
        bs[0].spec_commands().len() == 0,
        bs[0].spec_handlers().len() == 0,
        forall|k: int| 0 <= k < cs.len() ==> #[trigger] appended(bs[k], bs[k + 1], cs[k], hs[k]),
    ensures
        bs[n].spec_commands() == cs.subrange(0, n),
        bs[n].spec_handlers().len() == n,
        forall|i: int| 0 <= i < n ==> #[trigger] bs[n].spec_handlers()[i] == (cs[i].phrase, hs[i]),
    decreases n,
{
    if n == 0 {
        assert(bs[0].spec_commands() =~= cs.subrange(0, 0));
    } else {
        lemma_appends_prefix(bs, cs, hs, n - 1);
        let k = n - 1;
        assert(appended(bs[k], bs[k + 1], cs[k], hs[k]));
        assert(bs[n].spec_commands() =~= cs.subrange(0, n));
    }
}

/// Appending a command leaves the descriptors and handlers of every earlier
/// command as they were: what is declared for the new command touches
/// nothing else.
pub proof fn lemma_append_keeps_earlier<T, H>(
    prev: CommandBuilder<T, H>,
    next: CommandBuilder<T, H>,
    c: CommandView,
    h: H,
)
    requires
        appended(prev, next, c, h),
    ensures
        next.spec_commands().len() == prev.spec_commands().len() + 1,
        forall|i: int|
            0 <= i < prev.spec_commands().len() ==> #[trigger] next.spec_commands()[i]
                == prev.spec_commands()[i],
        forall|i: int|
            0 <= i < prev.spec_handlers().len() ==> #[trigger] next.spec_handlers()[i]
                == prev.spec_handlers()[i],
        next.spec_commands().last() == c,
{
}

/// The finalized table: the descriptors, and for each command its phrase
/// and handler, in the order the commands were appended.
#[derive(Debug)]
pub struct Table<H> {
    commands: Vec<CommandDescriptor>,
    handlers: Vec<(String, H)>,
}

impl<H> Table<H> {
    pub closed spec fn spec_commands(&self) -> Seq<CommandView> {
        self.commands@.map_values(|c: CommandDescriptor| c@)
    }

    pub closed spec fn spec_handlers(&self) -> Seq<(Seq<char>, H)> {
        self.handlers@.map_values(|p: (String, H)| (p.0@, p.1))
    }

    pub closed spec fn wf(&self) -> bool {
        paired(self.spec_commands(), self.spec_handlers())
    }

    /// The number of phrase entries.
    pub fn len(&self) -> (r: usize)
        requires
            self.wf(),
        ensures
            r == self.spec_handlers().len(),
            r == self.spec_commands().len(),
    {
        self.handlers.len()
    }

    /// The descriptors, in order.
    pub fn commands(&self) -> (r: &Vec<CommandDescriptor>)
        ensures
            r@.map_values(|c: CommandDescriptor| c@) == self.spec_commands(),
    {
        &self.commands
    }

    /// The phrase and handler of command `i`.
    pub fn entry(&self, i: usize) -> (r: (&str, &H))
        requires
            i < self.spec_handlers().len(),
        ensures
            r.0@ == self.spec_handlers()[i as int].0,
            *r.1 == self.spec_handlers()[i as int].1,
    {
        let e = &self.handlers[i];
        (e.0.as_str(), &e.1)
    }

    /// The position of a command whose phrase is `phrase`, if there is one.
    /// Where several commands share it, which one is found is left open.
    pub fn find(&self, phrase: &str) -> (r: Option<usize>)
        ensures
            r is None <==> forall|i: int|
                0 <= i < self.spec_handlers().len() ==> self.spec_handlers()[i].0 != phrase@,
            r matches Some(i) ==> i < self.spec_handlers().len() && self.spec_handlers()[i as int].0
                == phrase@,
    {
        let key = phrase.to_owned();
        let n = self.handlers.len();
        let mut i: usize = 0;
        while i < n
            invariant
                n == self.handlers@.len(),
                n == self.spec_handlers().len(),
                key@ == phrase@,
                i <= n,
                forall|j: int| 0 <= j < i ==> self.spec_handlers()[j].0 != phrase@,
            decreases n - i,
        {
            if self.handlers[i].0 == key {
                assert(self.spec_handlers()[i as int].0 == phrase@);
                return Some(i);
            }
            assert(self.spec_handlers()[i as int].0 != phrase@);
            i = i + 1;
        }
        None
    }
}

} // verus!
