//! What holds of the router state across selections and assignments.

use vstd::prelude::*;

use crate::policies::thunder;
use crate::policies::thunder::{BackendState, BackendView, Program, RouterState, RouterView};
use crate::text;

verus! {

/// The selected backend depends on which URLs are offered, not on their order or
/// on repetitions: no two URLs can both be the least active.
pub proof fn law_selection_deterministic(
    v: RouterView,
    urls: Seq<Seq<char>>,
    same_urls: Seq<Seq<char>>,
    a: Seq<char>,
    b: Seq<char>,
)
    requires
        forall|url: Seq<char>| urls.contains(url) <==> same_urls.contains(url),
        v.is_least_active(urls, a),
        v.is_least_active(same_urls, b),
    ensures
        a == b,
{
    assert(urls.contains(b));
    assert(same_urls.contains(a));
    let i = choose|i: int| 0 <= i < urls.len() && urls[i] == b;
    let j = choose|j: int| 0 <= j < same_urls.len() && same_urls[j] == a;
    assert(v.prefers(a, urls[i]));
    assert(v.prefers(b, same_urls[j]));
    text::lemma_text_le_antisymmetric(a, b);
}

/// Among any URLs there is a least active one.
pub proof fn law_selection_exists(v: RouterView, urls: Seq<Seq<char>>) -> (url: Seq<char>)
    requires
        urls.len() > 0,
    ensures
        v.is_least_active(urls, url),
    decreases urls.len(),
{
    let last = urls.last();
    let before = urls.drop_last();
    text::lemma_text_le_total(last, last);
    assert(urls[urls.len() - 1] == last);
    if before.len() == 0 {
        last
    } else {
        let best = law_selection_exists(v, before);
        text::lemma_text_le_total(best, last);
        let at = choose|i: int| 0 <= i < before.len() && before[i] == best;
        assert(urls[at] == best);
        if v.prefers(best, last) {
            assert forall|i: int| 0 <= i < urls.len() implies v.prefers(
                best,
                #[trigger] urls[i],
            ) by {
                if i < before.len() {
                    assert(v.prefers(best, before[i]));
                }
            }
            best
        } else {
            assert forall|i: int| 0 <= i < urls.len() implies v.prefers(
                last,
                #[trigger] urls[i],
            ) by {
                if i < before.len() {
                    assert(v.prefers(best, before[i]));
                    if text::text_le(last, best) && text::text_le(best, before[i]) {
                        text::lemma_text_le_transitive(last, best, before[i]);
                    }
                }
            }
            last
        }
    }
}

/// After a refresh the known backends are exactly those at the given URLs. A
/// backend that was known is kept as it was, and a new one has no programs.
pub proof fn law_refresh(v: RouterView, urls: Seq<Seq<char>>, url: Seq<char>)
    ensures
        v.after_refresh(urls).backends.contains_key(url) <==> urls.contains(url),
        urls.contains(url) ==> v.after_refresh(urls).backends[url] == v.backend_or_new(url),
        urls.contains(url) ==> v.after_refresh(urls).active_count(url) == v.active_count(url),
        v.after_refresh(urls).programs == v.programs,
{
}

/// A second refresh with the same URLs changes nothing.
pub proof fn law_refresh_idempotent(v: RouterView, urls: Seq<Seq<char>>)
    ensures
        v.after_refresh(urls).after_refresh(urls) == v.after_refresh(urls),
{
    assert(v.after_refresh(urls).after_refresh(urls).backends =~= v.after_refresh(urls).backends);
}

/// A refresh does not change which of the given URLs is selected.
pub proof fn law_refresh_keeps_selection(v: RouterView, urls: Seq<Seq<char>>, url: Seq<char>)
    ensures
        v.after_refresh(urls).is_least_active(urls, url) == v.is_least_active(urls, url),
{
    let after = v.after_refresh(urls);
    if urls.contains(url) {
        assert forall|i: int| 0 <= i < urls.len() implies after.prefers(url, #[trigger] urls[i])
            == v.prefers(url, urls[i]) by {
            assert(urls.contains(urls[i]));
        }
        if after.is_least_active(urls, url) {
            assert forall|i: int| 0 <= i < urls.len() implies v.prefers(
                url,
                #[trigger] urls[i],
            ) by {
                assert(after.prefers(url, urls[i]));
            }
        }
        if v.is_least_active(urls, url) {
            assert forall|i: int| 0 <= i < urls.len() implies after.prefers(
                url,
                #[trigger] urls[i],
            ) by {
                assert(v.prefers(url, urls[i]));
            }
        }
    }
}

/// An assignment sticks: the program knows its backend, the backend knows the
/// program, and one request more is in flight.
pub proof fn law_assign_sticks(v: RouterView, program_id: Seq<char>, url: Seq<char>)
    ensures
        ({
            let after = v.after_assign(program_id, url);
            &&& after.programs.contains_key(program_id)
            &&& after.programs[program_id].backend_url == Some(url)
            &&& after.programs[program_id].in_flight == thunder::increment(
                v.program_or_new(program_id).in_flight,
            )
            &&& after.programs[program_id].step_count == thunder::increment(
                v.program_or_new(program_id).step_count,
            )
            &&& after.programs[program_id].total_tokens == v.program_or_new(
                program_id,
            ).total_tokens
            &&& after.backends.contains_key(url)
            &&& after.backends[url].active_programs.contains(program_id)
        }),
{
}

/// An assignment touches one program, and another backend at most in whether that
/// program is active there: all else of it stays, and a backend that the program
/// was not assigned to stays as it is.
pub proof fn law_assign_frame(
    v: RouterView,
    program_id: Seq<char>,
    url: Seq<char>,
    other_id: Seq<char>,
    other_url: Seq<char>,
)
    ensures
        ({
            let after = v.after_assign(program_id, url);
            &&& other_id != program_id ==> {
                &&& after.programs.contains_key(other_id) == v.programs.contains_key(other_id)
                &&& after.programs[other_id] == v.programs[other_id]
            }
            &&& other_url != url ==> {
                &&& after.backends.contains_key(other_url) == v.backends.contains_key(other_url)
                &&& v.backends.contains_key(other_url) ==> {
                    let backend = v.backends[other_url];
                    ||| after.backends[other_url] == backend
                    ||| v.program_or_new(program_id).backend_url == Some(other_url)
                        && after.backends[other_url] == (BackendView {
                        active_programs: backend.active_programs.remove(program_id),
                        ..backend
                    })
                }
            }
        }),
{
}

/// A program is active on the one backend it is assigned to: after an assignment
/// it is active there and nowhere else, and the count of a backend that it left
/// falls by one.
pub proof fn law_assign_moves(
    v: RouterView,
    program_id: Seq<char>,
    url: Seq<char>,
    other_url: Seq<char>,
)
    requires
        v.consistent(),
        other_url != url,
        v.backends.contains_key(other_url),
        v.backends[other_url].active_programs.finite(),
    ensures
        ({
            let after = v.after_assign(program_id, url);
            &&& after.backends[url].active_programs.contains(program_id)
            &&& !after.backends[other_url].active_programs.contains(program_id)
            &&& after.active_count(other_url) == v.active_count(other_url)
                - if v.backends[other_url].active_programs.contains(program_id) {
                1int
            } else {
                0int
            }
        }),
{
    let backend = v.backends[other_url];
    if !backend.active_programs.contains(program_id) {
        assert(backend.active_programs.remove(program_id) =~= backend.active_programs);
    }
}

/// An assignment counts a program once: the backend's count grows by one if the
/// program was not active there, and stays otherwise.
pub proof fn law_assign_counts_once(v: RouterView, program_id: Seq<char>, url: Seq<char>)
    requires
        v.backends.contains_key(url) ==> v.backends[url].active_programs.finite(),
    ensures
        v.after_assign(program_id, url).active_count(url) == v.active_count(url) + if v
            .backends.contains_key(url) && v.backends[url].active_programs.contains(program_id) {
            0nat
        } else {
            1nat
        },
{
}

/// Assigning a program to its backend again leaves the backends as they are.
pub proof fn law_assign_again(v: RouterView, program_id: Seq<char>, url: Seq<char>)
    ensures
        v.after_assign(program_id, url).after_assign(program_id, url).backends == v.after_assign(
            program_id,
            url,
        ).backends,
{
    let once = v.after_assign(program_id, url);
    let twice = once.after_assign(program_id, url);
    assert(twice.backends[url].active_programs =~= once.backends[url].active_programs);
    assert(twice.backends =~= once.backends);
}

/// Every program stays filed under its own id, and every active program stays
/// known and assigned to the backend where it is active: the empty state is
/// consistent, and refreshing and assigning keep it so.
pub proof fn law_consistent(
    v: RouterView,
    urls: Seq<Seq<char>>,
    program_id: Seq<char>,
    url: Seq<char>,
)
    requires
        v.consistent(),
    ensures
        (RouterView { programs: Map::empty(), backends: Map::empty() }).consistent(),
        v.after_refresh(urls).consistent(),
        v.after_assign(program_id, url).consistent(),
{
    let refreshed = v.after_refresh(urls);
    assert forall|u: Seq<char>, id: Seq<char>|
        refreshed.backends.contains_key(u)
            && #[trigger] refreshed.backends[u].active_programs.contains(
            id,
        ) implies refreshed.programs.contains_key(id) && refreshed.programs[id].backend_url == Some(
        u,
    ) by {
        assert(v.backends[u].active_programs.contains(id));
    }
    let assigned = v.after_assign(program_id, url);
    assert forall|u: Seq<char>, id: Seq<char>|
        assigned.backends.contains_key(u)
            && #[trigger] assigned.backends[u].active_programs.contains(
            id,
        ) implies assigned.programs.contains_key(id) && assigned.programs[id].backend_url == Some(
        u,
    ) by {
        if id != program_id || u != url {
            assert(v.backends[u].active_programs.contains(id));
        }
    }
}

/// A program, a backend and a router state are known by all of their fields.
pub proof fn law_views_hold_all(program: Program, backend: BackendState, state: RouterState)
    ensures
        program@.program_id == program.program_id@,
        program.backend_url is Some ==> program@.backend_url == Some(program.backend_url->0@),
        program.backend_url is None ==> program@.backend_url is None,
        program@.in_flight == program.in_flight,
        program@.total_tokens == program.total_tokens,
        program@.step_count == program.step_count,
        backend@.active_programs == backend.active_programs@,
        backend@.active_program_tokens == backend.active_program_tokens,
        backend@.capacity_tokens == backend.capacity_tokens,
        state@.programs == state.programs@,
        state@.backends == state.backends@,
{
}

/// The selected backend is one of those offered, and none of them has fewer
/// active programs. The programs of a backend that is not known are none.
pub proof fn law_selection_fewest(
    v: RouterView,
    urls: Seq<Seq<char>>,
    selected: Seq<char>,
    other: Seq<char>,
)
    requires
        v.is_least_active(urls, selected),
        urls.contains(other),
    ensures
        urls.contains(selected),
        (if v.backends.contains_key(selected) {
            v.backends[selected].active_programs.len()
        } else {
            0
        }) <= (if v.backends.contains_key(other) {
            v.backends[other].active_programs.len()
        } else {
            0
        }),
{
    let i = choose|i: int| 0 <= i < urls.len() && urls[i] == other;
    assert(v.prefers(selected, urls[i]));
}

/// Among backends with equally many active programs the one whose URL comes first
/// is selected: another one starts with the selected URL, or has a larger
/// character where the two first differ.
pub proof fn law_selection_tie(
    v: RouterView,
    urls: Seq<Seq<char>>,
    selected: Seq<char>,
    other: Seq<char>,
) -> (k: int)
    requires
        v.is_least_active(urls, selected),
        urls.contains(other),
        (if v.backends.contains_key(selected) {
            v.backends[selected].active_programs.len()
        } else {
            0
        }) == (if v.backends.contains_key(other) {
            v.backends[other].active_programs.len()
        } else {
            0
        }),
    ensures
        0 <= k <= selected.len() && k <= other.len(),
        selected.take(k) == other.take(k),
        k == selected.len() || (k < other.len() && selected[k] < other[k]),
{
    let i = choose|i: int| 0 <= i < urls.len() && urls[i] == other;
    assert(v.prefers(selected, urls[i]));
    lemma_first_difference(selected, other)
}

/// Where one text stands at or before another, it is the start of it or smaller
/// where they first differ.
proof fn lemma_first_difference(a: Seq<char>, b: Seq<char>) -> (k: int)
    requires
        text::text_le(a, b),
    ensures
        0 <= k <= a.len() && k <= b.len(),
        a.take(k) == b.take(k),
        k == a.len() || (k < b.len() && a[k] < b[k]),
    decreases a.len(),
{
    if a.len() == 0 || a[0] != b[0] {
        assert(a.take(0) =~= b.take(0));
        0
    } else {
        let k = lemma_first_difference(a.skip(1), b.skip(1));
        assert(a.take(k + 1) =~= seq![a[0]] + a.skip(1).take(k));
        assert(b.take(k + 1) =~= seq![b[0]] + b.skip(1).take(k));
        k + 1
    }
}

/// After a refresh a backend that was known is as it was, and one that is new has
/// no programs, no tokens and no capacity. No other backend is known.
pub proof fn law_refresh_backends(v: RouterView, urls: Seq<Seq<char>>, url: Seq<char>)
    ensures
        ({
            let after = v.after_refresh(urls);
            &&& after.programs == v.programs
            &&& !urls.contains(url) ==> !after.backends.contains_key(url)
            &&& urls.contains(url) ==> after.backends.contains_key(url)
            &&& urls.contains(url) && v.backends.contains_key(url) ==> after.backends[url]
                == v.backends[url]
            &&& urls.contains(url) && !v.backends.contains_key(url) ==> {
                &&& after.backends[url].active_programs == Set::<Seq<char>>::empty()
                &&& after.backends[url].active_program_tokens == 0
                &&& after.backends[url].capacity_tokens == 0
            }
        }),
{
}

/// An assignment counts one request and one step more for the program, up to the
/// largest number, and gives it the backend. Its tokens and its id stay. A program
/// that was not known starts from nothing.
pub proof fn law_assign_program(v: RouterView, program_id: Seq<char>, url: Seq<char>)
    ensures
        v.after_assign(program_id, url).programs.dom() =~= v.programs.dom().insert(program_id),
        ({
            let after = v.after_assign(program_id, url).programs[program_id];
            let before = v.programs[program_id];
            &&& after.backend_url == Some(url)
            &&& !v.programs.contains_key(program_id) ==> {
                &&& after.program_id == program_id
                &&& after.in_flight == 1
                &&& after.step_count == 1
                &&& after.total_tokens == 0
            }
            &&& v.programs.contains_key(program_id) ==> {
                &&& after.program_id == before.program_id
                &&& after.total_tokens == before.total_tokens
                &&& before.in_flight < u32::MAX ==> after.in_flight == before.in_flight + 1
                &&& before.in_flight == u32::MAX ==> after.in_flight == u32::MAX
                &&& before.step_count < u32::MAX ==> after.step_count == before.step_count + 1
                &&& before.step_count == u32::MAX ==> after.step_count == u32::MAX
            }
        }),
{
}

/// An assignment adds the program to the programs of its backend and changes
/// nothing else there. A backend that was not known starts from nothing.
pub proof fn law_assign_backend(v: RouterView, program_id: Seq<char>, url: Seq<char>)
    ensures
        v.after_assign(program_id, url).backends.dom() =~= v.backends.dom().insert(url),
        ({
            let after = v.after_assign(program_id, url).backends[url];
            let before = v.backends[url];
            &&& v.backends.contains_key(url) ==> {
                &&& after.active_programs =~= before.active_programs.insert(program_id)
                &&& after.active_program_tokens == before.active_program_tokens
                &&& after.capacity_tokens == before.capacity_tokens
            }
            &&& !v.backends.contains_key(url) ==> {
                &&& after.active_programs =~= Set::<Seq<char>>::empty().insert(program_id)
                &&& after.active_program_tokens == 0
                &&& after.capacity_tokens == 0
            }
        }),
{
}

/// An assignment takes the program off the backend that it was assigned to, where
/// that is another one, and changes no other program and nothing else of any other
/// backend.
pub proof fn law_assign_leaves(
    v: RouterView,
    program_id: Seq<char>,
    url: Seq<char>,
    other_id: Seq<char>,
    other_url: Seq<char>,
)
    requires
        other_id != program_id,
        other_url != url,
        v.programs.contains_key(other_id),
        v.backends.contains_key(other_url),
    ensures
        ({
            let after = v.after_assign(program_id, url);
            let was_there = v.programs.contains_key(program_id)
                && v.programs[program_id].backend_url == Some(other_url);
            &&& after.programs[other_id] == v.programs[other_id]
            &&& was_there ==> after.backends[other_url].active_programs
                =~= v.backends[other_url].active_programs.remove(program_id)
            &&& !was_there ==> after.backends[other_url].active_programs
                == v.backends[other_url].active_programs
            &&& after.backends[other_url].active_program_tokens
                == v.backends[other_url].active_program_tokens
            &&& after.backends[other_url].capacity_tokens == v.backends[other_url].capacity_tokens
        }),
{
}

/// In a consistent state a program is active on one backend at most, and that is
/// the backend it is assigned to.
pub proof fn law_one_backend(v: RouterView, id: Seq<char>, a: Seq<char>, b: Seq<char>)
    requires
        v.consistent(),
        v.backends.contains_key(a) && v.backends[a].active_programs.contains(id),
        v.backends.contains_key(b) && v.backends[b].active_programs.contains(id),
    ensures
        a == b,
        v.programs.contains_key(id) && v.programs[id].backend_url == Some(a),
{
}

} // verus!
