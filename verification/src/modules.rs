//! Kernel modules that are loaded on first use and kept.
//!
//! A kernel is looked up in its module. A module that is not loaded yet is loaded
//! first and kept, also where the lookup in it then fails.

use vstd::hash_map::StringHashMap;
use vstd::prelude::*;

verus! {

/// What it takes to get a kernel.
#[derive(Clone, Copy, Debug, PartialEq, Eq, Structural)]
pub enum KernelStep {
    /// Look the kernel up in its module, which is loaded.
    LoadFunction,
    /// Load the module first.
    LoadModule,
}

/// What it takes to get a kernel, by whether its module is loaded.
pub open spec fn kernel_step(loaded: bool) -> KernelStep {
    if loaded {
        KernelStep::LoadFunction
    } else {
        KernelStep::LoadModule
    }
}

/// Modules that users add, by name.
#[verifier::reject_recursive_types(M)]
pub struct CustomModules<M> {
    modules: StringHashMap<M>,
}

impl<M> View for CustomModules<M> {
    type V = Map<Seq<char>, M>;

    closed spec fn view(&self) -> Map<Seq<char>, M> {
        self.modules@
    }
}

impl<M> CustomModules<M> {
    /// No modules.
    pub fn new() -> (r: CustomModules<M>)
        ensures
            r@ == Map::<Seq<char>, M>::empty(),
    {
        CustomModules { modules: StringHashMap::new() }
    }

    /// A module by its name.
    pub fn get(&self, module_name: &str) -> (r: Option<&M>)
        ensures
            match r {
                Some(m) => self@.contains_key(module_name@) && *m == self@[module_name@],
                None => !self@.contains_key(module_name@),
            },
    {
        self.modules.get(module_name)
    }

    /// What it takes to get a kernel of the module with this name.
    pub fn step(&self, module_name: &str) -> (r: KernelStep)
        ensures
            r == kernel_step(self@.contains_key(module_name@)),
    {
        if self.modules.contains_key(module_name) {
            KernelStep::LoadFunction
        } else {
            KernelStep::LoadModule
        }
    }

    /// Keeps a module under its name, or passes on why it could not be loaded.
    pub fn install<E>(&mut self, module_name: String, loaded: Result<M, E>) -> (r: Result<(), E>)
        ensures
            match loaded {
                Ok(m) => r is Ok && final(self)@ == old(self)@.insert(module_name@, m),
                Err(e) => r == Err::<(), E>(e) && final(self)@ == old(self)@,
            },
    {
        match loaded {
            Ok(m) => {
                self.modules.insert(module_name, m);
                Ok(())
            },
            Err(e) => Err(e),
        }
    }
}

/// The modules that come with the library, by number.
pub struct ModuleStore<M> {
    pub mdls: Vec<Option<M>>,
}

impl<M> ModuleStore<M> {
    /// A store for `count` modules, none of them loaded.
    pub fn new(count: usize) -> (r: ModuleStore<M>)
        ensures
            r.mdls@.len() == count,
            forall|i: int| 0 <= i < count ==> #[trigger] r.mdls@[i] is None,
    {
        let mut mdls: Vec<Option<M>> = Vec::new();
        let mut i: usize = 0;
        while i < count
            invariant
                i <= count,
                mdls@.len() == i,
                forall|j: int| 0 <= j < i ==> #[trigger] mdls@[j] is None,
            decreases count - i,
        {
            mdls.push(None);
            i = i + 1;
        }
        ModuleStore { mdls }
    }

    /// A module by its number.
    pub fn get(&self, index: usize) -> (r: Option<&M>)
        requires
            index < self.mdls@.len(),
        ensures
            match r {
                Some(m) => self.mdls@[index as int] == Some(*m),
                None => self.mdls@[index as int] is None,
            },
    {
        match &self.mdls[index] {
            Some(m) => Some(m),
            None => None,
        }
    }

    /// What it takes to get a kernel of the module with this number.
    pub fn step(&self, index: usize) -> (r: KernelStep)
        requires
            index < self.mdls@.len(),
        ensures
            r == kernel_step(self.mdls@[index as int] is Some),
    {
        match self.get(index) {
            Some(_) => KernelStep::LoadFunction,
            None => KernelStep::LoadModule,
        }
    }

    /// Keeps a module under its number, or passes on why it could not be loaded.
    pub fn install<E>(&mut self, index: usize, loaded: Result<M, E>) -> (r: Result<(), E>)
        requires
            index < old(self).mdls@.len(),
        ensures
            match loaded {
                Ok(m) => r is Ok && final(self).mdls@ == old(self).mdls@.update(
                    index as int,
                    Some(m),
                ),
                Err(e) => r == Err::<(), E>(e) && final(self).mdls@ == old(self).mdls@,
            },
    {
        match loaded {
            Ok(m) => {
                self.mdls.set(index, Some(m));
                Ok(())
            },
            Err(e) => Err(e),
        }
    }
}

/// A module that users add is loaded at most once: after it was kept, a kernel of it
/// is looked up at once, and what it takes to get a kernel of any other module is as before.
pub proof fn law_custom_module_is_loaded_once<M>(
    modules: Map<Seq<char>, M>,
    name: Seq<char>,
    m: M,
    other: Seq<char>,
)
    ensures
        kernel_step(modules.insert(name, m).contains_key(name)) == KernelStep::LoadFunction,
        other != name ==> kernel_step(modules.insert(name, m).contains_key(other)) == kernel_step(
            modules.contains_key(other),
        ),
{
}

/// A module of the library is loaded at most once: after it was kept, a kernel of it
/// is looked up at once, and what it takes to get a kernel of any other module is as before.
pub proof fn law_module_is_loaded_once<M>(mdls: Seq<Option<M>>, index: int, m: M, other: int)
    requires
        0 <= index < mdls.len(),
        0 <= other < mdls.len(),
    ensures
        kernel_step(mdls.update(index, Some(m))[index] is Some) == KernelStep::LoadFunction,
        other != index ==> kernel_step(mdls.update(index, Some(m))[other] is Some) == kernel_step(
            mdls[other] is Some,
        ),
{
}

/// A kernel of a module that users add is looked up at once exactly if the modules hold the
/// module; otherwise the module is loaded first.
pub proof fn law_missing_custom_module_is_loaded<M>(
    modules: CustomModules<M>,
    name: &str,
    held: Option<&M>,
    step: KernelStep,
)
    requires
        call_ensures(CustomModules::<M>::get, (&modules, name), held),
        call_ensures(CustomModules::<M>::step, (&modules, name), step),
    ensures
        held is Some <==> modules@.contains_key(name@),
        held matches Some(m) ==> *m == modules@[name@],
        held is Some <==> step == KernelStep::LoadFunction,
        held is None <==> step == KernelStep::LoadModule,
{
}

/// A kernel of a module of the library is looked up at once exactly if the store holds the
/// module; otherwise the module is loaded first.
pub proof fn law_missing_module_is_loaded<M>(
    store: ModuleStore<M>,
    index: usize,
    held: Option<&M>,
    step: KernelStep,
)
    requires
        call_ensures(ModuleStore::<M>::get, (&store, index), held),
        call_ensures(ModuleStore::<M>::step, (&store, index), step),
    ensures
        held is Some <==> step == KernelStep::LoadFunction,
        held is None <==> step == KernelStep::LoadModule,
        held matches Some(m) ==> store.mdls@[index as int] == Some(*m),
        held is None ==> store.mdls@[index as int] is None,
{
}

/// Keeping a module adds it under its name and leaves all others; a failure to load it
/// changes nothing and is passed on.
pub proof fn law_custom_module_is_kept<M, E>(
    modules: &mut CustomModules<M>,
    name: String,
    loaded: Result<M, E>,
    r: Result<(), E>,
    other: Seq<char>,
)
    requires
        call_ensures(CustomModules::<M>::install::<E>, (modules, name, loaded), r),
    ensures
        loaded matches Ok(m) ==> {
            &&& r is Ok
            &&& final(modules)@.contains_key(name@)
            &&& final(modules)@[name@] == m
        },
        loaded matches Err(e) ==> r == Err::<(), E>(e) && final(modules)@ == old(modules)@,
        other != name@ ==> {
            &&& final(modules)@.contains_key(other) == old(modules)@.contains_key(other)
            &&& final(modules)@[other] == old(modules)@[other]
        },
{
}

/// Keeping a module puts it in its place and leaves all others; a failure to load it
/// changes nothing and is passed on.
pub proof fn law_module_is_kept<M, E>(
    store: &mut ModuleStore<M>,
    index: usize,
    loaded: Result<M, E>,
    r: Result<(), E>,
    other: int,
)
    requires
        call_ensures(ModuleStore::<M>::install::<E>, (store, index, loaded), r),
        index < store.mdls@.len(),
        0 <= other < store.mdls@.len(),
    ensures
        final(store).mdls@.len() == old(store).mdls@.len(),
        loaded matches Ok(m) ==> r is Ok && final(store).mdls@[index as int] == Some(m),
        loaded matches Err(e) ==> {
            &&& r == Err::<(), E>(e)
            &&& final(store).mdls@[other] == old(store).mdls@[other]
        },
        other != index ==> final(store).mdls@[other] == old(store).mdls@[other],
{
}

} // verus!
