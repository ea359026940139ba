//! State of the Thunder policy: program-aware, capacity-tracking load
//! balancing.
//!
//! In the default sub-mode a request goes to the worker with the fewest active
//! programs assigned to it.

use vstd::prelude::*;

use crate::keyed;
use crate::keyed::{Snapshot, TextMap, TextSet};
use crate::text;
use crate::text::same_text;

verus! {

/// Sub-mode selector: the default mode, or `Tr` (transactional).
#[derive(Debug, Clone, Copy, PartialEq, Eq, Structural)]
pub enum ThunderSubMode {
    Default,
    Tr,
}

impl Default for ThunderSubMode {
    fn default() -> (mode: Self)
        ensures
            mode == ThunderSubMode::Default,
    {
        ThunderSubMode::Default
    }
}

/// Per-program state tracked by Thunder.
#[derive(Debug)]
pub struct Program {
    pub program_id: String,
    /// URL of the backend currently assigned to this program (sticky routing).
    pub backend_url: Option<String>,
    /// Count of in-flight requests for this program (admission tracking).
    pub in_flight: u32,
    /// Cumulative tokens reported for this program.
    pub total_tokens: u64,
    /// Step counter: increments per admission.
    pub step_count: u32,
}

/// A program as a mathematical value.
pub struct ProgramView {
    pub program_id: Seq<char>,
    pub backend_url: Option<Seq<char>>,
    pub in_flight: u32,
    pub total_tokens: u64,
    pub step_count: u32,
}

impl View for Program {
    type V = ProgramView;

    open spec fn view(&self) -> ProgramView {
        ProgramView {
            program_id: self.program_id@,
            backend_url: match self.backend_url {
                Some(url) => Some(url@),
                None => None,
            },
            in_flight: self.in_flight,
            total_tokens: self.total_tokens,
            step_count: self.step_count,
        }
    }
}

/// A program that was never admitted.
pub open spec fn new_program(program_id: Seq<char>) -> ProgramView {
    ProgramView { program_id, backend_url: None, in_flight: 0, total_tokens: 0, step_count: 0 }
}

impl Program {
    pub fn new(program_id: String) -> (program: Self)
        ensures
            program@ == new_program(program_id@),
            program.program_id@ == program_id@,
            program.backend_url is None,
            program.in_flight == 0,
            program.total_tokens == 0,
            program.step_count == 0,
    {
        Self { program_id, backend_url: None, in_flight: 0, total_tokens: 0, step_count: 0 }
    }
}

impl Clone for Program {
    fn clone(&self) -> (copy: Self)
        ensures
            copy@ == self@,
            copy.program_id@ == self.program_id@,
            match (copy.backend_url, self.backend_url) {
                (Some(a), Some(b)) => a@ == b@,
                (None, None) => true,
                _ => false,
            },
            copy.in_flight == self.in_flight,
            copy.total_tokens == self.total_tokens,
            copy.step_count == self.step_count,
    {
        Program {
            program_id: self.program_id.clone(),
            backend_url: match &self.backend_url {
                Some(url) => Some(url.clone()),
                None => None,
            },
            in_flight: self.in_flight,
            total_tokens: self.total_tokens,
            step_count: self.step_count,
        }
    }
}

impl Snapshot for Program {
    fn snapshot(&self) -> (copy: Self) {
        self.clone()
    }
}

/// Per-backend (worker URL) state tracked by Thunder.
#[derive(Debug)]
pub struct BackendState {
    /// Ids of the programs currently assigned to this backend.
    pub active_programs: TextSet,
    /// Cumulative tokens dispatched to this backend.
    pub active_program_tokens: u64,
    /// Reported KV-cache capacity.
    pub capacity_tokens: u64,
}

/// A backend as a mathematical value.
pub struct BackendView {
    pub active_programs: Set<Seq<char>>,
    pub active_program_tokens: u64,
    pub capacity_tokens: u64,
}

impl View for BackendState {
    type V = BackendView;

    open spec fn view(&self) -> BackendView {
        BackendView {
            active_programs: self.active_programs@,
            active_program_tokens: self.active_program_tokens,
            capacity_tokens: self.capacity_tokens,
        }
    }
}

/// A backend without programs, of which nothing is known.
pub open spec fn new_backend() -> BackendView {
    BackendView { active_programs: Set::empty(), active_program_tokens: 0, capacity_tokens: 0 }
}

impl BackendState {
    /// How many programs are assigned to this backend.
    pub fn active_count(&self) -> (count: usize)
        ensures
            self@.active_programs.finite(),
            count == self@.active_programs.len(),
            count == self.active_programs@.len(),
    {
        self.active_programs.len()
    }
}

impl Default for BackendState {
    fn default() -> (backend: Self)
        ensures
            backend@ == new_backend(),
            backend.active_programs@ == Set::<Seq<char>>::empty(),
            backend.active_program_tokens == 0,
            backend.capacity_tokens == 0,
    {
        BackendState {
            active_programs: TextSet::new(),
            active_program_tokens: 0,
            capacity_tokens: 0,
        }
    }
}

impl Clone for BackendState {
    fn clone(&self) -> (copy: Self)
        ensures
            copy@ == self@,
            copy.active_programs@ == self.active_programs@,
            copy.active_program_tokens == self.active_program_tokens,
            copy.capacity_tokens == self.capacity_tokens,
    {
        BackendState {
            active_programs: self.active_programs.clone(),
            active_program_tokens: self.active_program_tokens,
            capacity_tokens: self.capacity_tokens,
        }
    }
}

impl Snapshot for BackendState {
    fn snapshot(&self) -> (copy: Self) {
        self.clone()
    }
}

/// Mutable state shared across the policy and its tasks.
#[derive(Debug)]
pub struct RouterState {
    pub programs: TextMap<Program>,
    pub backends: TextMap<BackendState>,
}

/// The router state as a mathematical value.
pub struct RouterView {
    pub programs: Map<Seq<char>, ProgramView>,
    pub backends: Map<Seq<char>, BackendView>,
}

impl View for RouterState {
    type V = RouterView;

    open spec fn view(&self) -> RouterView {
        RouterView { programs: self.programs@, backends: self.backends@ }
    }
}

impl RouterView {
    /// How many programs are assigned to the backend at `url`; none to a backend
    /// that is not known.
    pub open spec fn active_count(self, url: Seq<char>) -> nat {
        if self.backends.contains_key(url) {
            self.backends[url].active_programs.len()
        } else {
            0
        }
    }

    /// `a` is preferred to `b`, or is `b`: it has fewer active programs, or as
    /// many and stands at or before `b` in the order of text.
    pub open spec fn prefers(self, a: Seq<char>, b: Seq<char>) -> bool {
        self.active_count(a) < self.active_count(b) || (self.active_count(a) == self.active_count(
            b,
        ) && text::text_le(a, b))
    }

    /// The least active backend among `urls` is at `url`.
    pub open spec fn is_least_active(self, urls: Seq<Seq<char>>, url: Seq<char>) -> bool {
        urls.contains(url) && forall|i: int|
            0 <= i < urls.len() ==> self.prefers(url, #[trigger] urls[i])
    }

    /// The state after the backends were refreshed: those at `urls`, each as it
    /// was or new.
    pub open spec fn after_refresh(self, urls: Seq<Seq<char>>) -> RouterView {
        RouterView {
            programs: self.programs,
            backends: Map::new(
                |url: Seq<char>| urls.contains(url),
                |url: Seq<char>|
                    if self.backends.contains_key(url) {
                        self.backends[url]
                    } else {
                        new_backend()
                    },
            ),
        }
    }

    /// A program before it is assigned: as it is known, or new.
    pub open spec fn program_or_new(self, program_id: Seq<char>) -> ProgramView {
        if self.programs.contains_key(program_id) {
            self.programs[program_id]
        } else {
            new_program(program_id)
        }
    }

    /// A backend before a program is assigned to it: as it is known, or new.
    pub open spec fn backend_or_new(self, url: Seq<char>) -> BackendView {
        if self.backends.contains_key(url) {
            self.backends[url]
        } else {
            new_backend()
        }
    }

    /// The backends once a program has left its former one for `url`. A program
    /// whose backend is at `url`, or is not known, leaves none.
    pub open spec fn backends_left(self, program_id: Seq<char>, url: Seq<char>) -> Map<
        Seq<char>,
        BackendView,
    > {
        match self.program_or_new(program_id).backend_url {
            Some(from) => if from != url && self.backends.contains_key(from) {
                self.backends.insert(
                    from,
                    BackendView {
                        active_programs: self.backends[from].active_programs.remove(program_id),
                        ..self.backends[from]
                    },
                )
            } else {
                self.backends
            },
            None => self.backends,
        }
    }

    /// The state after a program was assigned to a backend: the program is off its
    /// former backend, and active on this one.
    pub open spec fn after_assign(self, program_id: Seq<char>, url: Seq<char>) -> RouterView {
        let program = self.program_or_new(program_id);
        let backend = self.backend_or_new(url);
        RouterView {
            programs: self.programs.insert(
                program_id,
                ProgramView {
                    backend_url: Some(url),
                    in_flight: increment(program.in_flight),
                    step_count: increment(program.step_count),
                    ..program
                },
            ),
            backends: self.backends_left(program_id, url).insert(
                url,
                BackendView {
                    active_programs: backend.active_programs.insert(program_id),
                    ..backend
                },
            ),
        }
    }

    /// Every program is filed under its own id, and every program that is active
    /// on a backend is known and assigned to that backend.
    pub open spec fn consistent(self) -> bool {
        &&& forall|id: Seq<char>| #[trigger]
            self.programs.contains_key(id) ==> self.programs[id].program_id == id
        &&& forall|url: Seq<char>, id: Seq<char>|
            self.backends.contains_key(url)
                && #[trigger] self.backends[url].active_programs.contains(id)
                ==> self.programs.contains_key(id) && self.programs[id].backend_url == Some(url)
    }
}

/// One more, or the largest `u32`.
pub open spec fn increment(n: u32) -> u32 {
    if n < u32::MAX {
        (n + 1) as u32
    } else {
        n
    }
}

impl Default for RouterState {
    fn default() -> (state: Self)
        ensures
            state@.programs == Map::<Seq<char>, ProgramView>::empty(),
            state@.backends == Map::<Seq<char>, BackendView>::empty(),
            state.programs@ == Map::<Seq<char>, ProgramView>::empty(),
            state.backends@ == Map::<Seq<char>, BackendView>::empty(),
    {
        RouterState { programs: TextMap::new(), backends: TextMap::new() }
    }
}

impl RouterState {
    /// A copy for read-only inspection.
    pub fn snapshot(&self) -> (copy: RouterState)
        ensures
            copy@ == self@,
            copy.programs@ == self.programs@,
            copy.backends@ == self.backends@,
    {
        RouterState { programs: self.programs.clone(), backends: self.backends.clone() }
    }

    /// Ensure the backends are those of the given URL set, removing entries no
    /// longer present.
    pub fn refresh_backends(&mut self, urls: &[String])
        ensures
            final(self)@ == old(self)@.after_refresh(keyed::texts(urls@)),
    {
        let ghost all = keyed::texts(urls@);
        let ghost before = self.backends@;
        let mut backends: TextMap<BackendState> = TextMap::new();
        for i in 0..urls.len()
            invariant
                all == keyed::texts(urls@),
                before == old(self)@.backends,
                self.programs == old(self).programs,
                forall|url: Seq<char>| #[trigger]
                    backends@.contains_key(url) <==> all.take(i as int).contains(url),
                forall|url: Seq<char>| #[trigger]
                    backends@.contains_key(url) ==> backends@[url] == old(self)@.backend_or_new(
                        url,
                    ),
                forall|url: Seq<char>|
                    !backends@.contains_key(url) ==> (#[trigger] self.backends@.contains_key(url)
                        <==> before.contains_key(url)),
                forall|url: Seq<char>|
                    !backends@.contains_key(url) && before.contains_key(url)
                        ==> #[trigger] self.backends@[url] == before[url],
        {
            let ghost seen = all.take(i as int);
            let ghost url = urls@[i as int]@;
            let ghost kept = backends@;
            assert(all.take(i + 1) =~= seen.push(url));
            assert forall|u: Seq<char>| seen.push(url).contains(u) == (seen.contains(u) || u
                == url) by {
                if seen.contains(u) {
                    let j = choose|j: int| 0 <= j < seen.len() && seen[j] == u;
                    assert(seen.push(url)[j] == u);
                }
                if u == url {
                    assert(seen.push(url)[seen.len() as int] == u);
                }
            }
            if backends.get(urls[i].as_str()).is_none() {
                let backend = match self.backends.remove(urls[i].as_str()) {
                    Some(backend) => backend,
                    None => BackendState::default(),
                };
                backends.insert(urls[i].clone(), backend);
            }
        }
        assert(all.take(all.len() as int) =~= all);
        self.backends = backends;
        assert(self@.backends =~= old(self)@.after_refresh(all).backends);
    }

    /// How many programs are assigned to the backend at `url`.
    pub fn active_count(&self, url: &str) -> (count: usize)
        ensures
            count == self@.active_count(url@),
            self.backends@.contains_key(url@) ==> count
                == self.backends@[url@].active_programs.len(),
            !self.backends@.contains_key(url@) ==> count == 0,
    {
        match self.backends.get(url) {
            Some(backend) => backend.active_count(),
            None => 0,
        }
    }

    /// Default-mode selection: pick the backend whose active program count is
    /// smallest. Ties are broken by the order of the URL text.
    pub fn select_least_active(&self, urls: &[String]) -> (selected: Option<String>)
        ensures
            match selected {
                Some(url) => self@.is_least_active(keyed::texts(urls@), url@),
                None => urls@.len() == 0,
            },
            selected matches Some(url) ==> forall|i: int|
                0 <= i < urls@.len() ==> (if self.backends@.contains_key(url@) {
                    self.backends@[url@].active_programs.len()
                } else {
                    0
                }) <= (if self.backends@.contains_key((#[trigger] urls@[i])@) {
                    self.backends@[urls@[i]@].active_programs.len()
                } else {
                    0
                }),
            selected matches Some(url) ==> exists|i: int|
                0 <= i < urls@.len() && (#[trigger] urls@[i])@ == url@,
    {
        if urls.len() == 0 {
            return None;
        }
        let ghost all = keyed::texts(urls@);
        let mut best: usize = 0;
        let mut best_count: usize = self.active_count(urls[0].as_str());
        proof {
            text::lemma_text_le_total(all[0], all[0]);
        }
        for i in 1..urls.len()
            invariant
                all == keyed::texts(urls@),
                best < urls@.len(),
                best_count == self@.active_count(all[best as int]),
                forall|j: int| 0 <= j < i ==> self@.prefers(all[best as int], #[trigger] all[j]),
        {
            let count: usize = self.active_count(urls[i].as_str());
            let keep = best_count < count || (best_count == count && text::at_or_before(
                urls[best].as_str(),
                urls[i].as_str(),
            ));
            if !keep {
                proof {
                    text::lemma_text_le_total(all[best as int], all[i as int]);
                    text::lemma_text_le_total(all[i as int], all[i as int]);
                    assert forall|j: int| 0 <= j < i + 1 implies self@.prefers(
                        all[i as int],
                        #[trigger] all[j],
                    ) by {
                        if j < i && self@.active_count(all[i as int]) == self@.active_count(
                            all[best as int],
                        ) && self@.active_count(all[best as int]) == self@.active_count(all[j]) {
                            text::lemma_text_le_transitive(
                                all[i as int],
                                all[best as int],
                                all[j],
                            );
                        }
                    }
                }
                best = i;
                best_count = count;
            }
        }
        let selected = urls[best].clone();
        assert(all[best as int] == selected@);
        assert(urls@[best as int]@ == selected@);
        assert forall|i: int| 0 <= i < urls@.len() implies self@.active_count(selected@)
            <= self@.active_count((#[trigger] urls@[i])@) by {
            assert(self@.prefers(all[best as int], all[i]));
        }
        Some(selected)
    }

    /// Record (or refresh) the assignment of a program to a backend. A program that
    /// was assigned to another backend is no longer active there.
    pub fn assign(&mut self, program_id: &str, backend_url: &str)
        ensures
            final(self)@ == old(self)@.after_assign(program_id@, backend_url@),
    {
        let mut program = match self.programs.remove(program_id) {
            Some(program) => program,
            None => Program::new(program_id.to_owned()),
        };
        // A program that moves is taken off the backend it leaves.
        if let Some(from) = &program.backend_url {
            if !same_text(from.as_str(), backend_url) {
                if let Some(mut left) = self.backends.remove(from.as_str()) {
                    left.active_programs.remove(program_id);
                    self.backends.insert(from.clone(), left);
                }
            }
        }
        assert(self@.backends =~= old(self)@.backends_left(program_id@, backend_url@));
        program.backend_url = Some(backend_url.to_owned());
        program.in_flight = program.in_flight.saturating_add(1);
        program.step_count = program.step_count.saturating_add(1);
        self.programs.insert(program_id.to_owned(), program);

        let mut backend = match self.backends.remove(backend_url) {
            Some(backend) => backend,
            None => BackendState::default(),
        };
        backend.active_programs.insert(program_id.to_owned());
        self.backends.insert(backend_url.to_owned(), backend);
        proof {
            let after = old(self)@.after_assign(program_id@, backend_url@);
            assert(self@.programs =~= after.programs);
            assert(self@.backends =~= after.backends);
        }
    }
}

} // verus!
