//! The hook registry: which installed plugin wants to run at which lifecycle
//! point.
//!
//! The registry is filled once, when the process starts, and only read after
//! that. Plugins are known by the place at which they were registered, and
//! every list the registry hands out is in registration order.

use vstd::prelude::*;
use crate::hook::{HookType, Metadata, Plugin};

verus! {

/// One installed plugin: its identity and the lifecycle points it asked for.
#[derive(Debug)]
pub struct Registration {
    id: String,
    hooks: Vec<HookType>,
}

/// What a [`Registration`] holds.
pub struct RegistrationView {
    pub id: Seq<char>,
    pub hooks: Seq<HookType>,
}

impl View for Registration {
    type V = RegistrationView;

    closed spec fn view(&self) -> RegistrationView {
        RegistrationView { id: self.id@, hooks: self.hooks@ }
    }
}

/// The installed plugins, in registration order, no identity twice.
///
/// The view is the sequence of registrations.
#[derive(Debug)]
pub struct HookRegistry {
    plugins: Vec<Registration>,
}

impl View for HookRegistry {
    type V = Seq<RegistrationView>;

    closed spec fn view(&self) -> Seq<RegistrationView> {
        Seq::new(self.plugins@.len(), |i: int| self.plugins@[i]@)
    }
}

/// Whether a plugin with identity `id` is among `plugins`.
pub open spec fn is_registered(plugins: Seq<RegistrationView>, id: Seq<char>) -> bool {
    exists|i: int| 0 <= i < plugins.len() && (#[trigger] plugins[i]).id == id
}

/// Whether no identity occurs twice among `plugins`.
pub open spec fn distinct_ids(plugins: Seq<RegistrationView>) -> bool {
    forall|i: int, j: int|
        0 <= i < j < plugins.len() ==> (#[trigger] plugins[i]).id != (#[trigger] plugins[j]).id
}

/// The plugins among the first `upto` that asked for `hook`, by their place,
/// in registration order.
pub open spec fn subscribers(plugins: Seq<RegistrationView>, hook: HookType, upto: nat) -> Seq<usize>
    decreases upto,
{
    if upto == 0 {
        Seq::empty()
    } else {
        let before = subscribers(plugins, hook, (upto - 1) as nat);
        if plugins[upto - 1].hooks.contains(hook) {
            before.push((upto - 1) as usize)
        } else {
            before
        }
    }
}

/// The plugins to call for a command that declares `hook`: the subscribers
/// of the hook, or nobody if the command declares none.
pub open spec fn called_for(plugins: Seq<RegistrationView>, hook: Option<HookType>) -> Seq<usize> {
    match hook {
        Some(hook) => subscribers(plugins, hook, plugins.len()),
        None => Seq::empty(),
    }
}

/// The subscribers of a hook are exactly the plugins that asked for it, each
/// once, and they stand in registration order.
pub proof fn lemma_subscribers(plugins: Seq<RegistrationView>, hook: HookType, upto: nat)
    requires
        upto <= plugins.len(),
        plugins.len() <= usize::MAX,
    ensures
        forall|k: int|
            0 <= k < subscribers(plugins, hook, upto).len() ==> {
                &&& (#[trigger] subscribers(plugins, hook, upto)[k]) < upto
                &&& plugins[subscribers(plugins, hook, upto)[k] as int].hooks.contains(hook)
            },
        forall|k: int, l: int|
            0 <= k < l < subscribers(plugins, hook, upto).len() ==> (#[trigger] subscribers(
                plugins,
                hook,
                upto,
            )[k]) < (#[trigger] subscribers(plugins, hook, upto)[l]),
        forall|p: int|
            0 <= p < upto && (#[trigger] plugins[p]).hooks.contains(hook) ==> subscribers(
                plugins,
                hook,
                upto,
            ).contains(p as usize),
        subscribers(plugins, hook, upto).len() <= upto,
    decreases upto,
{
    if upto > 0 {
        let before = subscribers(plugins, hook, (upto - 1) as nat);
        let now = subscribers(plugins, hook, upto);
        lemma_subscribers(plugins, hook, (upto - 1) as nat);
        assert forall|p: int| 0 <= p < upto && (#[trigger] plugins[p]).hooks.contains(
            hook,
        ) implies now.contains(p as usize) by {
            if p < upto - 1 {
                assert(before.contains(p as usize));
                let k = choose|k: int| 0 <= k < before.len() && before[k] == p as usize;
                assert(now[k] == p as usize);
            } else {
                assert(now[now.len() - 1] == p as usize);
            }
        }
    }
}

impl Registration {
    /// The identity of the plugin.
    pub fn id(&self) -> (id: &str)
        ensures
            id@ == self@.id,
    {
        self.id.as_str()
    }

    /// Whether the plugin asked for `hook`.
    pub fn subscribes_to(&self, hook: HookType) -> (subscribes: bool)
        ensures
            subscribes == self@.hooks.contains(hook),
    {
        let mut i: usize = 0;
        while i < self.hooks.len()
            invariant
                i <= self.hooks@.len(),
                forall|j: int| 0 <= j < i ==> self.hooks@[j] != hook,
            decreases self.hooks@.len() - i,
        {
            if self.hooks[i] == hook {
                return true;
            }
            i = i + 1;
        }
        false
    }
}

impl HookRegistry {
    #[verifier::type_invariant]
    closed spec fn inv(&self) -> bool {
        distinct_ids(self@)
    }

    /// A registry with no plugin in it.
    pub fn new() -> (registry: HookRegistry)
        ensures
            registry@ == Seq::<RegistrationView>::empty(),
    {
        let registry = HookRegistry { plugins: Vec::new() };
        assert(registry@ =~= Seq::<RegistrationView>::empty());
        registry
    }

    /// The number of installed plugins.
    pub fn len(&self) -> (len: usize)
        ensures
            len == self@.len(),
            distinct_ids(self@),
    {
        proof {
            use_type_invariant(self);
        }
        self.plugins.len()
    }

    /// The place of the plugin with identity `id`, if it is installed.
    pub fn position(&self, id: &str) -> (place: Option<usize>)
        ensures
            match place {
                Some(p) => p < self@.len() && self@[p as int].id == id@,
                None => !is_registered(self@, id@),
            },
    {
        let wanted = id.to_owned();
        let mut i: usize = 0;
        while i < self.plugins.len()
            invariant
                i <= self.plugins@.len(),
                self@.len() == self.plugins@.len(),
                wanted@ == id@,
                forall|j: int| 0 <= j < i ==> (#[trigger] self@[j]).id != id@,
            decreases self.plugins@.len() - i,
        {
            if self.plugins[i].id == wanted {
                return Some(i);
            }
            i = i + 1;
        }
        None
    }

    /// Installs the plugin that `metadata` describes, after the plugins that
    /// are installed already. A plugin whose identity is installed already is
    /// not installed again.
    pub fn register(&mut self, metadata: &Metadata) -> (added: bool)
        ensures
            added == !is_registered(old(self)@, metadata@.id),
            added ==> final(self)@ == old(self)@.push(
                RegistrationView { id: metadata@.id, hooks: metadata@.hooks },
            ),
            !added ==> final(self)@ == old(self)@,
    {
        proof {
            use_type_invariant(&*self);
        }
        if self.position(metadata.id.as_str()).is_some() {
            return false;
        }
        let mut hooks: Vec<HookType> = Vec::new();
        let mut i: usize = 0;
        while i < metadata.hooks.len()
            invariant
                i <= metadata.hooks@.len(),
                hooks@ == metadata.hooks@.take(i as int),
            decreases metadata.hooks@.len() - i,
        {
            hooks.push(metadata.hooks[i]);
            assert(metadata.hooks@.take(i + 1) =~= metadata.hooks@.take(i as int).push(
                metadata.hooks@[i as int],
            ));
            i = i + 1;
        }
        assert(metadata.hooks@.take(metadata.hooks@.len() as int) =~= metadata.hooks@);
        let mut installed = HookRegistry::new();
        core::mem::swap(self, &mut installed);
        proof {
            use_type_invariant(&installed);
        }
        let ghost before = installed@;
        let mut plugins = installed.plugins;
        plugins.push(Registration { id: metadata.id.clone(), hooks });
        let ghost after = before.push(
            RegistrationView { id: metadata@.id, hooks: metadata@.hooks },
        );
        assert(Seq::new(plugins@.len(), |i: int| plugins@[i]@) =~= after);
        assert(distinct_ids(after)) by {
            assert forall|i: int, j: int| 0 <= i < j < after.len() implies (#[trigger] after[i]).id != (
            #[trigger] after[j]).id by {
                if j == before.len() {
                    assert(before[i].id != metadata@.id);
                } else {
                    assert(before[i].id != before[j].id);
                }
            }
        }
        *self = HookRegistry { plugins };
        true
    }

    /// Installs a plugin by asking it to describe itself.
    pub fn install<P: Plugin>(&mut self) -> (added: bool)
        ensures
            added == !is_registered(old(self)@, P::metadata().id),
            added ==> final(self)@ == old(self)@.push(
                RegistrationView { id: P::metadata().id, hooks: P::metadata().hooks },
            ),
            !added ==> final(self)@ == old(self)@,
    {
        let metadata = P::info();
        self.register(&metadata)
    }

    /// The identity of the plugin at `place`, if there is one.
    pub fn id_of(&self, place: usize) -> (id: Option<String>)
        ensures
            place < self@.len() ==> (id matches Some(text) && text@ == self@[place as int].id),
            place >= self@.len() ==> id is None,
    {
        if place < self.plugins.len() {
            Some(self.plugins[place].id.clone())
        } else {
            None
        }
    }

    /// The plugins that asked for `hook`, in registration order.
    pub fn subscribers(&self, hook: HookType) -> (plugins: Vec<usize>)
        ensures
            plugins@ == subscribers(self@, hook, self@.len()),
    {
        let mut plugins: Vec<usize> = Vec::new();
        let mut i: usize = 0;
        while i < self.plugins.len()
            invariant
                i <= self.plugins@.len(),
                self@.len() == self.plugins@.len(),
                plugins@ == subscribers(self@, hook, i as nat),
            decreases self.plugins@.len() - i,
        {
            if self.plugins[i].subscribes_to(hook) {
                plugins.push(i);
            }
            i = i + 1;
        }
        plugins
    }

    /// The plugins to call for a command that declares `hook`.
    pub fn called_for(&self, hook: Option<HookType>) -> (plugins: Vec<usize>)
        ensures
            plugins@ == called_for(self@, hook),
    {
        match hook {
            Some(hook) => self.subscribers(hook),
            None => Vec::new(),
        }
    }
}

} // verus!
