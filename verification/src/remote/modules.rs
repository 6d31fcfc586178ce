//! The enumeration of loaded modules, which may change while it is read.

use crate::error::{outcome, pe, Error, ErrorView, Result};
use vstd::prelude::*;

verus! {

pub const MODULE_ENUMERATION_ATTEMPTS: usize = 5;

pub const INITIAL_MODULE_CAPACITY: usize = 256;

pub const MAX_MODULE_LIST_BYTES: usize = 1048576;

/// The bytes of a module handle.
pub const MODULE_HANDLE_BYTES: usize = 8;

/// How many handles a byte count stands for.
pub open spec fn module_count_of(bytes: usize) -> std::result::Result<usize, ErrorView> {
    if bytes > MAX_MODULE_LIST_BYTES || bytes % MODULE_HANDLE_BYTES != 0 {
        Err(ErrorView::Pe("invalid module enumeration size"@))
    } else {
        Ok(bytes / MODULE_HANDLE_BYTES)
    }
}

/// Convert the API byte count to handles without silently dropping a tail.
pub fn module_count(bytes: usize) -> (result: Result<usize>)
    ensures
        outcome(result) == module_count_of(bytes),
{
    if bytes > MAX_MODULE_LIST_BYTES || bytes % MODULE_HANDLE_BYTES != 0 {
        return Err(pe("invalid module enumeration size"));
    }
    Ok(bytes / MODULE_HANDLE_BYTES)
}

/// A loaded module and the path of its file.
#[derive(Debug)]
pub struct Module {
    pub base: usize,
    pub path: Vec<u16>,
}

/// The mathematical content of a [`Module`].
#[verifier::ext_equal]
pub struct ModuleView {
    pub base: usize,
    pub path: Seq<u16>,
}

impl View for Module {
    type V = ModuleView;

    open spec fn view(&self) -> ModuleView {
        ModuleView { base: self.base, path: self.path@ }
    }
}

/// The views of modules in a row.
pub open spec fn module_views(modules: Seq<Module>) -> Seq<ModuleView> {
    modules.map_values(|m: Module| m@)
}

/// What the enumeration asks for next.
#[derive(Debug, Clone, Copy, PartialEq, Eq, Structural)]
pub enum ModuleStep {
    /// Enumerate into a buffer of so many handles.
    Enumerate(usize),
    /// Name the module with this handle.
    Name(usize),
    /// Every module is named.
    Done,
}

/// An enumeration of the modules of a process. It starts over when the list
/// outgrows its buffer, or a module goes away before it is named.
#[derive(Debug)]
pub struct ModuleList {
    pub capacity: usize,
    /// How many enumerations were begun.
    pub attempts: usize,
    /// The handles of this enumeration.
    pub handles: Vec<usize>,
    pub named: Vec<Module>,
    pub last_error: Option<Error>,
}

/// The mathematical content of a [`ModuleList`].
#[verifier::ext_equal]
pub struct ModuleListView {
    pub capacity: usize,
    pub attempts: usize,
    pub handles: Seq<usize>,
    pub named: Seq<ModuleView>,
    pub last_error: Option<ErrorView>,
}

impl View for ModuleList {
    type V = ModuleListView;

    open spec fn view(&self) -> ModuleListView {
        ModuleListView {
            capacity: self.capacity,
            attempts: self.attempts,
            handles: self.handles@,
            named: module_views(self.named@),
            last_error: match self.last_error {
                Some(error) => Some(error@),
                None => None,
            },
        }
    }
}

impl ModuleListView {
    /// Start over, or report why that is not tried again.
    pub open spec fn again(self) -> (ModuleListView, std::result::Result<ModuleStep, ErrorView>) {
        if self.attempts < MODULE_ENUMERATION_ATTEMPTS {
            (
                ModuleListView { attempts: (self.attempts + 1) as usize, ..self },
                Ok(ModuleStep::Enumerate(self.capacity)),
            )
        } else {
            (
                ModuleListView { last_error: None, ..self },
                Err(
                    match self.last_error {
                        Some(error) => error,
                        None => ErrorView::ModuleNotFound,
                    },
                ),
            )
        }
    }

    /// Name the next module, or finish.
    pub open spec fn naming(self) -> (ModuleListView, ModuleStep) {
        if self.named.len() < self.handles.len() {
            (self, ModuleStep::Name(self.handles[self.named.len() as int]))
        } else {
            (self, ModuleStep::Done)
        }
    }

    /// What an enumeration that needs `bytes` leads to, with the handles it gave.
    pub open spec fn enumerated_of(self, bytes: usize, handles: Seq<usize>) -> (
        ModuleListView,
        std::result::Result<ModuleStep, ErrorView>,
    ) {
        match module_count_of(bytes) {
            Err(fault) => (self, Err(fault)),
            Ok(count) => if count > self.capacity {
                ModuleListView { capacity: count, ..self }.again()
            } else {
                let listed = if count <= handles.len() {
                    handles.take(count as int)
                } else {
                    handles
                };
                let (next, step) = ModuleListView {
                    handles: listed,
                    named: Seq::empty(),
                    ..self
                }.naming();
                (next, Ok(step))
            },
        }
    }

    /// What a module that could not be named leads to.
    pub open spec fn unnamed_of(self, error: ErrorView) -> (
        ModuleListView,
        std::result::Result<ModuleStep, ErrorView>,
    ) {
        ModuleListView { last_error: Some(error), ..self }.again()
    }

    /// What the path of the module that was named leads to.
    pub open spec fn named_of(self, path: Seq<u16>) -> (ModuleListView, ModuleStep) {
        if self.named.len() < self.handles.len() {
            ModuleListView {
                named: self.named.push(
                    ModuleView { base: self.handles[self.named.len() as int], path },
                ),
                ..self
            }.naming()
        } else {
            (self, ModuleStep::Done)
        }
    }
}

impl ModuleList {
    /// Begin with a buffer of the initial capacity.
    pub fn start() -> (result: (Self, ModuleStep))
        ensures
            result.0@ == (ModuleListView {
                capacity: INITIAL_MODULE_CAPACITY,
                attempts: 1,
                handles: Seq::empty(),
                named: Seq::empty(),
                last_error: None,
            }),
            result.1 == ModuleStep::Enumerate(INITIAL_MODULE_CAPACITY),
    {
        let list = ModuleList {
            capacity: INITIAL_MODULE_CAPACITY,
            attempts: 1,
            handles: Vec::new(),
            named: Vec::new(),
            last_error: None,
        };
        assert(list@.named =~= Seq::empty());
        (list, ModuleStep::Enumerate(INITIAL_MODULE_CAPACITY))
    }

    /// Start over, or report why that is not tried again.
    fn retry(&mut self) -> (result: Result<ModuleStep>)
        ensures
            (final(self)@, outcome(result)) == old(self)@.again(),
    {
        if self.attempts < MODULE_ENUMERATION_ATTEMPTS {
            self.attempts = self.attempts + 1;
            return Ok(ModuleStep::Enumerate(self.capacity));
        }
        match self.last_error.take() {
            Some(error) => Err(error),
            None => Err(Error::ModuleNotFound),
        }
    }

    /// Name the next module, or finish.
    fn naming(&self) -> (step: ModuleStep)
        ensures
            (self@, step) == self@.naming(),
    {
        if self.named.len() < self.handles.len() {
            ModuleStep::Name(self.handles[self.named.len()])
        } else {
            ModuleStep::Done
        }
    }

    /// Take the byte count that the enumeration needs, and the handles it gave.
    pub fn enumerated(&mut self, bytes: usize, handles: Vec<usize>) -> (result: Result<ModuleStep>)
        ensures
            (final(self)@, outcome(result)) == old(self)@.enumerated_of(bytes, handles@),
    {
        let count: usize = match module_count(bytes) {
            Err(error) => return Err(error),
            Ok(count) => count,
        };
        if count > self.capacity {
            self.capacity = count;
            return self.retry();
        }
        let mut listed = handles;
        if count <= listed.len() {
            listed.truncate(count);
            assert(listed@ =~= handles@.take(count as int));
        }
        self.handles = listed;
        self.named = Vec::new();
        assert(self@.named =~= Seq::empty());
        Ok(self.naming())
    }

    /// Take the failure to name a module: it may have gone away.
    pub fn unnamed(&mut self, error: Error) -> (result: Result<ModuleStep>)
        ensures
            (final(self)@, outcome(result)) == old(self)@.unnamed_of(error@),
    {
        self.last_error = Some(error);
        self.retry()
    }

    /// Take the path of the module that was named.
    pub fn named(&mut self, path: Vec<u16>) -> (step: ModuleStep)
        ensures
            (final(self)@, step) == old(self)@.named_of(path@),
    {
        if self.named.len() >= self.handles.len() {
            return ModuleStep::Done;
        }
        let base: usize = self.handles[self.named.len()];
        let ghost before = self.named@;
        self.named.push(Module { base, path });
        proof {
            assert(module_views(self.named@) =~= module_views(before).push(
                ModuleView { base, path: path@ },
            ));
        }
        self.naming()
    }

    /// The modules that were named.
    pub fn finish(self) -> (modules: Vec<Module>)
        ensures
            module_views(modules@) == self@.named,
    {
        self.named
    }
}

/// The modules that are named so far are the first of the listed handles, in
/// order, and an enumeration was begun at most so many times.
pub open spec fn is_listing(list: ModuleListView) -> bool {
    &&& list.named.len() <= list.handles.len()
    &&& forall|i: int|
        0 <= i < list.named.len() ==> (#[trigger] list.named[i]).base == list.handles[i]
    &&& list.attempts <= MODULE_ENUMERATION_ATTEMPTS
}

/// Every answer keeps [`is_listing`], so a finished enumeration names every
/// handle that it listed, in order. Each new enumeration counts, and there are
/// at most so many, however often the modules change.
pub proof fn finished_lists_are_complete(
    list: ModuleListView,
    bytes: usize,
    handles: Seq<usize>,
    error: ErrorView,
    path: Seq<u16>,
)
    requires
        is_listing(list),
    ensures
        is_listing(list.enumerated_of(bytes, handles).0),
        is_listing(list.unnamed_of(error).0),
        is_listing(list.named_of(path).0),
        list.enumerated_of(bytes, handles).1 matches Ok(ModuleStep::Enumerate(_)) ==> list.attempts
            < list.enumerated_of(bytes, handles).0.attempts,
        list.unnamed_of(error).1 matches Ok(step) ==> list.attempts < list.unnamed_of(
            error,
        ).0.attempts,
        list.enumerated_of(bytes, handles).1 == Ok::<ModuleStep, ErrorView>(ModuleStep::Done)
            ==> list.enumerated_of(bytes, handles).0.handles.len() == 0,
        list.named_of(path).1 is Done ==> list.named_of(path).0.named.len() == list.handles.len(),
{
}

/// Whether units are the same.
pub fn same_units(one: &[u16], other: &[u16]) -> (same: bool)
    ensures
        same == (one@ == other@),
{
    if one.len() != other.len() {
        return false;
    }
    let mut i: usize = 0;
    while i < one.len()
        invariant
            i <= one@.len(),
            one@.len() == other@.len(),
            forall|k: int| 0 <= k < i ==> one@[k] == other@[k],
        decreases one@.len() - i,
    {
        if one[i] != other[i] {
            return false;
        }
        i += 1;
    }
    assert(one@ =~= other@);
    true
}

/// `i` is the first module with this path.
pub open spec fn is_first_with_path(modules: Seq<ModuleView>, path: Seq<u16>, i: int) -> bool {
    &&& 0 <= i < modules.len()
    &&& modules[i].path == path
    &&& forall|k: int| 0 <= k < i ==> (#[trigger] modules[k]).path != path
}

/// No module has this path.
pub open spec fn none_has_path(modules: Seq<ModuleView>, path: Seq<u16>) -> bool {
    forall|i: int| 0 <= i < modules.len() ==> (#[trigger] modules[i]).path != path
}

/// The base of the first module with the expected path. Paths are given in the
/// spelling that they are compared by.
pub fn find_module(modules: &[Module], expected: &[u16]) -> (result: Result<usize>)
    ensures
        match result {
            Ok(base) => exists|i: int|
                #[trigger] is_first_with_path(module_views(modules@), expected@, i) && base
                    == module_views(modules@)[i].base,
            Err(error) => error@ == ErrorView::ModuleNotFound && none_has_path(
                module_views(modules@),
                expected@,
            ),
        },
{
    let mut i: usize = 0;
    while i < modules.len()
        invariant
            i <= modules@.len(),
            forall|k: int|
                0 <= k < i ==> (#[trigger] module_views(modules@)[k]).path != expected@,
        decreases modules@.len() - i,
    {
        if same_units(&modules[i].path, expected) {
            assert(is_first_with_path(module_views(modules@), expected@, i as int));
            return Ok(modules[i].base);
        }
        i += 1;
    }
    Err(Error::ModuleNotFound)
}

/// No module before `i` is at this base.
pub open spec fn none_is_at(modules: Seq<Module>, base: usize, i: int) -> bool {
    forall|k: int| 0 <= k < i ==> (#[trigger] modules[k]).base != base
}

/// The index of the first module at this base.
pub fn module_at(modules: &[Module], base: usize) -> (result: Option<usize>)
    ensures
        match result {
            Some(i) => i < modules@.len() && modules@[i as int].base == base && none_is_at(
                modules@,
                base,
                i as int,
            ),
            None => none_is_at(modules@, base, modules@.len() as int),
        },
{
    let mut i: usize = 0;
    while i < modules.len()
        invariant
            i <= modules@.len(),
            forall|k: int| 0 <= k < i ==> (#[trigger] modules@[k]).base != base,
        decreases modules@.len() - i,
    {
        if modules[i].base == base {
            return Some(i);
        }
        i += 1;
    }
    None
}

} // verus!
