//! The interception registry and orchestrator: one descriptor per hooked
//! function, each moving through uninstalled, installed-disabled and
//! installed-enabled states, grouped into the "translation" capability set
//! (the copy, append, construct, assign and render interceptions) and the
//! "search" set (the normalization and capitalization interceptions). A
//! group operation applies its members in order; the first failure aborts
//! the remaining members and is propagated, with no rollback.

use vstd::prelude::*;

verus! {

/// Number of descriptors in the translation group.
pub const TRANSLATION_GROUP_SIZE: usize = 8;

/// Number of descriptors in the search group.
pub const SEARCH_GROUP_SIZE: usize = 6;

/// The lifecycle state of one interception descriptor.
#[derive(Clone, Copy, PartialEq, Eq, Structural, Debug)]
pub enum HookState {
    /// No replacement is installed at the target.
    Uninstalled,
    /// The replacement is installed but calls still reach the original.
    InstalledDisabled,
    /// The replacement is installed and intercepts calls.
    InstalledEnabled,
}

/// Why a registry operation failed.
#[derive(Clone, Copy, PartialEq, Eq, Structural, Debug)]
pub enum HookError {
    /// Attach was called on a descriptor that is already installed.
    AlreadyInstalled,
    /// Enable or disable was called on a descriptor that was never attached.
    NotInstalled,
}

/// Every descriptor of the group is uninstalled.
pub open spec fn all_uninstalled(s: Seq<HookState>) -> bool {
    forall|i: int| 0 <= i < s.len() ==> s[i] == HookState::Uninstalled
}

/// No descriptor of the group is uninstalled.
pub open spec fn none_uninstalled(s: Seq<HookState>) -> bool {
    forall|i: int| 0 <= i < s.len() ==> s[i] != HookState::Uninstalled
}

/// Every descriptor of the group is in state `st`.
pub open spec fn all_in(s: Seq<HookState>, st: HookState) -> bool {
    forall|i: int| 0 <= i < s.len() ==> s[i] == st
}

/// Whether any descriptor of the group actively intercepts calls.
pub open spec fn any_enabled(s: Seq<HookState>) -> bool {
    exists|i: int| 0 <= i < s.len() && s[i] == HookState::InstalledEnabled
}

/// The first index holding an already-installed descriptor, or the length
/// when there is none: attaching a group stops there.
pub open spec fn first_installed(s: Seq<HookState>) -> int
    decreases s.len(),
{
    if s.len() == 0 {
        0
    } else if s[0] != HookState::Uninstalled {
        0
    } else {
        1 + first_installed(s.drop_first())
    }
}

/// The first index holding a never-attached descriptor, or the length when
/// there is none: enabling or disabling a group stops there.
pub open spec fn first_uninstalled(s: Seq<HookState>) -> int
    decreases s.len(),
{
    if s.len() == 0 {
        0
    } else if s[0] == HookState::Uninstalled {
        0
    } else {
        1 + first_uninstalled(s.drop_first())
    }
}

/// A group after attach: members before the first already-installed one
/// become installed and disabled, the rest keep their state.
pub open spec fn group_attach(pre: Seq<HookState>) -> Seq<HookState> {
    Seq::new(
        pre.len(),
        |i: int|
            if i < first_installed(pre) {
                HookState::InstalledDisabled
            } else {
                pre[i]
            },
    )
}

/// A group after enable or disable toward `target`: members before the
/// first never-attached one move to `target`, the rest keep their state.
pub open spec fn group_toggle(pre: Seq<HookState>, target: HookState) -> Seq<HookState> {
    Seq::new(
        pre.len(),
        |i: int|
            if i < first_uninstalled(pre) {
                target
            } else {
                pre[i]
            },
    )
}

proof fn lemma_first_installed_at(s: Seq<HookState>, i: int)
    requires
        0 <= i <= s.len(),
        forall|j: int| 0 <= j < i ==> s[j] == HookState::Uninstalled,
        i < s.len() ==> s[i] != HookState::Uninstalled,
    ensures
        first_installed(s) == i,
    decreases s.len(),
{
    if s.len() == 0 {
    } else if s[0] != HookState::Uninstalled {
        assert(i == 0);
    } else {
        let s1 = s.drop_first();
        assert forall|j: int| 0 <= j < i - 1 implies s1[j] == HookState::Uninstalled by {
            assert(s1[j] == s[j + 1]);
        }
        assert(i - 1 < s1.len() ==> s1[i - 1] != HookState::Uninstalled);
        lemma_first_installed_at(s1, i - 1);
    }
}

proof fn lemma_first_uninstalled_at(s: Seq<HookState>, i: int)
    requires
        0 <= i <= s.len(),
        forall|j: int| 0 <= j < i ==> s[j] != HookState::Uninstalled,
        i < s.len() ==> s[i] == HookState::Uninstalled,
    ensures
        first_uninstalled(s) == i,
    decreases s.len(),
{
    if s.len() == 0 {
    } else if s[0] == HookState::Uninstalled {
        assert(i == 0);
    } else {
        let s1 = s.drop_first();
        assert forall|j: int| 0 <= j < i - 1 implies s1[j] != HookState::Uninstalled by {
            assert(s1[j] == s[j + 1]);
        }
        assert(i - 1 < s1.len() ==> s1[i - 1] == HookState::Uninstalled);
        lemma_first_uninstalled_at(s1, i - 1);
    }
}

/// Installs every member of one group in order, stopping at the first that
/// is already installed.
fn attach_group(states: &mut Vec<HookState>) -> (r: Result<(), HookError>)
    ensures
        final(states)@ == group_attach(old(states)@),
        r is Ok <==> all_uninstalled(old(states)@),
        r is Err ==> r == Err::<(), HookError>(HookError::AlreadyInstalled),
{
    let n = states.len();
    let mut i: usize = 0;
    while i < n
        invariant
            n == states@.len(),
            states@.len() == old(states)@.len(),
            i <= n,
            forall|j: int| 0 <= j < i ==> old(states)@[j] == HookState::Uninstalled,
            forall|j: int| 0 <= j < i ==> states@[j] == HookState::InstalledDisabled,
            forall|j: int| i <= j < n ==> states@[j] == old(states)@[j],
        decreases n - i,
    {
        if states[i] != HookState::Uninstalled {
            proof {
                lemma_first_installed_at(old(states)@, i as int);
                assert(states@ =~= group_attach(old(states)@));
                assert(old(states)@[i as int] != HookState::Uninstalled);
            }
            return Err(HookError::AlreadyInstalled);
        }
        states.set(i, HookState::InstalledDisabled);
        i = i + 1;
    }
    proof {
        lemma_first_installed_at(old(states)@, n as int);
        assert(states@ =~= group_attach(old(states)@));
    }
    Ok(())
}

/// Moves every member of one group to `target` in order, stopping at the
/// first that was never attached.
fn toggle_group(states: &mut Vec<HookState>, target: HookState) -> (r: Result<(), HookError>)
    requires
        target != HookState::Uninstalled,
    ensures
        final(states)@ == group_toggle(old(states)@, target),
        r is Ok <==> none_uninstalled(old(states)@),
        r is Err ==> r == Err::<(), HookError>(HookError::NotInstalled),
{
    let n = states.len();
    let mut i: usize = 0;
    while i < n
        invariant
            n == states@.len(),
            states@.len() == old(states)@.len(),
            i <= n,
            forall|j: int| 0 <= j < i ==> old(states)@[j] != HookState::Uninstalled,
            forall|j: int| 0 <= j < i ==> states@[j] == target,
            forall|j: int| i <= j < n ==> states@[j] == old(states)@[j],
        decreases n - i,
    {
        if states[i] == HookState::Uninstalled {
            proof {
                lemma_first_uninstalled_at(old(states)@, i as int);
                assert(states@ =~= group_toggle(old(states)@, target));
                assert(old(states)@[i as int] == HookState::Uninstalled);
            }
            return Err(HookError::NotInstalled);
        }
        states.set(i, target);
        i = i + 1;
    }
    proof {
        lemma_first_uninstalled_at(old(states)@, n as int);
        assert(states@ =~= group_toggle(old(states)@, target));
    }
    Ok(())
}

/// The registry of interception descriptors, one per hooked function.
pub struct Registry {
    translation: Vec<HookState>,
    search: Vec<HookState>,
}

impl Registry {
    /// The descriptor states of the translation group.
    pub closed spec fn translation_states(&self) -> Seq<HookState> {
        self.translation@
    }

    /// The descriptor states of the search group.
    pub closed spec fn search_states(&self) -> Seq<HookState> {
        self.search@
    }

    /// Both groups hold their fixed number of descriptors.
    pub open spec fn wf(&self) -> bool {
        &&& self.translation_states().len() == TRANSLATION_GROUP_SIZE
        &&& self.search_states().len() == SEARCH_GROUP_SIZE
    }

    /// A fresh registry with every descriptor uninstalled.
    pub fn new() -> (r: Registry)
        ensures
            r.wf(),
            all_uninstalled(r.translation_states()),
            all_uninstalled(r.search_states()),
    {
        let mut translation: Vec<HookState> = Vec::new();
        while translation.len() < TRANSLATION_GROUP_SIZE
            invariant
                translation@.len() <= TRANSLATION_GROUP_SIZE,
                all_uninstalled(translation@),
            decreases TRANSLATION_GROUP_SIZE - translation@.len(),
        {
            translation.push(HookState::Uninstalled);
        }
        let mut search: Vec<HookState> = Vec::new();
        while search.len() < SEARCH_GROUP_SIZE
            invariant
                search@.len() <= SEARCH_GROUP_SIZE,
                all_uninstalled(search@),
            decreases SEARCH_GROUP_SIZE - search@.len(),
        {
            search.push(HookState::Uninstalled);
        }
        Registry { translation, search }
    }

    /// The state of the translation-group descriptor at `index`.
    pub fn translation_state(&self, index: usize) -> (st: HookState)
        requires
            self.wf(),
            index < TRANSLATION_GROUP_SIZE,
        ensures
            st == self.translation_states()[index as int],
    {
        self.translation[index]
    }

    /// The state of the search-group descriptor at `index`.
    pub fn search_state(&self, index: usize) -> (st: HookState)
        requires
            self.wf(),
            index < SEARCH_GROUP_SIZE,
        ensures
            st == self.search_states()[index as int],
    {
        self.search[index]
    }

    /// Installs the translation group when `enable_translation` is set,
    /// then the search group when `enable_search` and `encoding_parsed`
    /// are both set. Attaching an already-installed descriptor fails,
    /// aborts the remaining members and groups, and rolls nothing back.
    pub fn attach_all(
        &mut self,
        enable_translation: bool,
        enable_search: bool,
        encoding_parsed: bool,
    ) -> (r: Result<(), HookError>)
        requires
            old(self).wf(),
        ensures
            final(self).wf(),
            ({
                let t0 = old(self).translation_states();
                let s0 = old(self).search_states();
                if enable_translation && !all_uninstalled(t0) {
                    &&& r == Err::<(), HookError>(HookError::AlreadyInstalled)
                    &&& final(self).translation_states() == group_attach(t0)
                    &&& final(self).search_states() == s0
                } else {
                    &&& final(self).translation_states() == (if enable_translation {
                        group_attach(t0)
                    } else {
                        t0
                    })
                    &&& (if enable_search && encoding_parsed {
                        &&& final(self).search_states() == group_attach(s0)
                        &&& (r is Ok <==> all_uninstalled(s0))
                        &&& (r is Err ==> r == Err::<(), HookError>(HookError::AlreadyInstalled))
                    } else {
                        &&& final(self).search_states() == s0
                        &&& r is Ok
                    })
                }
            }),
    {
        if enable_translation {
            match attach_group(&mut self.translation) {
                Ok(()) => {},
                Err(e) => {
                    return Err(e);
                },
            }
        }
        if enable_search && encoding_parsed {
            match attach_group(&mut self.search) {
                Ok(()) => {},
                Err(e) => {
                    return Err(e);
                },
            }
        }
        Ok(())
    }

    /// Enables every translation-group interception in order; a descriptor
    /// that was never attached aborts the rest.
    pub fn enable_translation(&mut self) -> (r: Result<(), HookError>)
        requires
            old(self).wf(),
        ensures
            final(self).wf(),
            final(self).translation_states() == group_toggle(
                old(self).translation_states(),
                HookState::InstalledEnabled,
            ),
            final(self).search_states() == old(self).search_states(),
            r is Ok <==> none_uninstalled(old(self).translation_states()),
            r is Err ==> r == Err::<(), HookError>(HookError::NotInstalled),
    {
        toggle_group(&mut self.translation, HookState::InstalledEnabled)
    }

    /// Enables every search-group interception in order; a descriptor that
    /// was never attached aborts the rest.
    pub fn enable_search(&mut self) -> (r: Result<(), HookError>)
        requires
            old(self).wf(),
        ensures
            final(self).wf(),
            final(self).search_states() == group_toggle(
                old(self).search_states(),
                HookState::InstalledEnabled,
            ),
            final(self).translation_states() == old(self).translation_states(),
            r is Ok <==> none_uninstalled(old(self).search_states()),
            r is Err ==> r == Err::<(), HookError>(HookError::NotInstalled),
    {
        toggle_group(&mut self.search, HookState::InstalledEnabled)
    }

    /// Enables the translation group, then the search group; the first
    /// failure aborts the rest.
    pub fn enable_all(&mut self) -> (r: Result<(), HookError>)
        requires
            old(self).wf(),
        ensures
            final(self).wf(),
            final(self).translation_states() == group_toggle(
                old(self).translation_states(),
                HookState::InstalledEnabled,
            ),
            if none_uninstalled(old(self).translation_states()) {
                &&& final(self).search_states() == group_toggle(
                    old(self).search_states(),
                    HookState::InstalledEnabled,
                )
                &&& (r is Ok <==> none_uninstalled(old(self).search_states()))
            } else {
                &&& final(self).search_states() == old(self).search_states()
                &&& r is Err
            },
            r is Err ==> r == Err::<(), HookError>(HookError::NotInstalled),
    {
        match self.enable_translation() {
            Ok(()) => {},
            Err(e) => {
                return Err(e);
            },
        }
        self.enable_search()
    }

    /// Disables every translation-group interception in order; a
    /// descriptor that was never attached aborts the rest.
    pub fn disable_translation(&mut self) -> (r: Result<(), HookError>)
        requires
            old(self).wf(),
        ensures
            final(self).wf(),
            final(self).translation_states() == group_toggle(
                old(self).translation_states(),
                HookState::InstalledDisabled,
            ),
            final(self).search_states() == old(self).search_states(),
            r is Ok <==> none_uninstalled(old(self).translation_states()),
            r is Err ==> r == Err::<(), HookError>(HookError::NotInstalled),
    {
        toggle_group(&mut self.translation, HookState::InstalledDisabled)
    }

    /// Disables every search-group interception in order; a descriptor
    /// that was never attached aborts the rest.
    pub fn disable_search(&mut self) -> (r: Result<(), HookError>)
        requires
            old(self).wf(),
        ensures
            final(self).wf(),
            final(self).search_states() == group_toggle(
                old(self).search_states(),
                HookState::InstalledDisabled,
            ),
            final(self).translation_states() == old(self).translation_states(),
            r is Ok <==> none_uninstalled(old(self).search_states()),
            r is Err ==> r == Err::<(), HookError>(HookError::NotInstalled),
    {
        toggle_group(&mut self.search, HookState::InstalledDisabled)
    }

    /// Disables the translation group, then the search group; the first
    /// failure aborts the rest.
    pub fn disable_all(&mut self) -> (r: Result<(), HookError>)
        requires
            old(self).wf(),
        ensures
            final(self).wf(),
            final(self).translation_states() == group_toggle(
                old(self).translation_states(),
                HookState::InstalledDisabled,
            ),
            if none_uninstalled(old(self).translation_states()) {
                &&& final(self).search_states() == group_toggle(
                    old(self).search_states(),
                    HookState::InstalledDisabled,
                )
                &&& (r is Ok <==> none_uninstalled(old(self).search_states()))
            } else {
                &&& final(self).search_states() == old(self).search_states()
                &&& r is Err
            },
            r is Err ==> r == Err::<(), HookError>(HookError::NotInstalled),
    {
        match self.disable_translation() {
            Ok(()) => {},
            Err(e) => {
                return Err(e);
            },
        }
        self.disable_search()
    }
}

/// Disabling both groups right after attaching them on a fresh registry
/// leaves every descriptor installed but disabled: the replacements are in
/// place yet inactive, so hooked calls behave as the originals do.
pub proof fn lemma_attach_then_disable(t0: Seq<HookState>, s0: Seq<HookState>)
    requires
        all_uninstalled(t0),
        all_uninstalled(s0),
    ensures
        ({
            let t1 = group_attach(t0);
            let s1 = group_attach(s0);
            let t2 = group_toggle(t1, HookState::InstalledDisabled);
            let s2 = group_toggle(s1, HookState::InstalledDisabled);
            &&& none_uninstalled(t1)
            &&& none_uninstalled(s1)
            &&& all_in(t1, HookState::InstalledDisabled)
            &&& all_in(s1, HookState::InstalledDisabled)
            &&& all_in(t2, HookState::InstalledDisabled)
            &&& all_in(s2, HookState::InstalledDisabled)
            &&& !any_enabled(t2)
            &&& !any_enabled(s2)
        }),
{
    lemma_first_installed_at(t0, t0.len() as int);
    lemma_first_installed_at(s0, s0.len() as int);
    let t1 = group_attach(t0);
    let s1 = group_attach(s0);
    assert(none_uninstalled(t1));
    assert(none_uninstalled(s1));
    lemma_first_uninstalled_at(t1, t1.len() as int);
    lemma_first_uninstalled_at(s1, s1.len() as int);
}

} // verus!
