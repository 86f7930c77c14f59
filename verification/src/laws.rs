//! Properties of the library as a whole: what a read gives back of a write,
//! what loading does over a whole run, what checked mode keeps.
use vstd::prelude::*;

use crate::group::{GroupModel, GroupStep, ResolveStep};
use crate::stub_gen::loongarch64::{
    binder_epilogue, binder_prologue, restore_lines, save_lines, saved_count, saved_offset,
    saved_register,
};
use crate::text::decimal;
use crate::library::{
    can_raise, indices_below, lower_all, occurrences, raise_all, Address, DylibHandle, Error,
    LibraryModel, LoadStep, SymbolStep,
};

verus! {

/// Loading under the configured names, going on from the try of the name at
/// `index`, where `outcomes[i]` is what opening the name at `i` gave: the
/// library and the step where the run ends. A name that does not open leads to
/// the next, as `load_next_step` says.
pub open spec fn load_run_from(
    m: LibraryModel,
    index: int,
    outcomes: Seq<Option<DylibHandle>>,
) -> (LibraryModel, LoadStep)
    decreases m.dylib_names.len() - index,
{
    if 0 <= index < m.dylib_names.len() {
        if outcomes[index] is None && index + 1 < m.dylib_names.len() {
            load_run_from(m, index + 1, outcomes)
        } else {
            m.load_next_step(index, outcomes[index])
        }
    } else {
        (m, LoadStep::Failed(Error::LibraryNotFound))
    }
}

/// A whole run of loading under the configured names, where `outcomes[i]` is
/// what opening the name at `i` gave.
pub open spec fn load_run(m: LibraryModel, outcomes: Seq<Option<DylibHandle>>) -> (
    LibraryModel,
    LoadStep,
) {
    match m.load_step() {
        LoadStep::Open(i) => load_run_from(m, i as int, outcomes),
        step => (m, step),
    }
}

/// Where a run goes on to the next name, the step says so and keeps the library.
pub proof fn law_failed_open_goes_on(m: LibraryModel, index: int)
    requires
        0 <= index,
        index + 1 < m.dylib_names.len(),
    ensures
        m.load_next_step(index, None) == (m, LoadStep::Open((index + 1) as usize)),
{
}

proof fn lemma_run_none(m: LibraryModel, index: int, outcomes: Seq<Option<DylibHandle>>)
    requires
        0 <= index < m.dylib_names.len(),
        forall|i: int| index <= i < m.dylib_names.len() ==> outcomes[i] is None,
    ensures
        load_run_from(m, index, outcomes) == (m, LoadStep::Failed(Error::LibraryNotFound)),
    decreases m.dylib_names.len() - index,
{
    assert(outcomes[index] is None);
    if index + 1 < m.dylib_names.len() {
        lemma_run_none(m, index + 1, outcomes);
    }
}

proof fn lemma_run_found(m: LibraryModel, index: int, outcomes: Seq<Option<DylibHandle>>, k: int)
    requires
        0 <= index <= k < m.dylib_names.len(),
        outcomes[k] is Some,
        forall|i: int| index <= i < k ==> outcomes[i] is None,
    ensures
        load_run_from(m, index, outcomes) == (
            m.with_handle(outcomes[k].unwrap().0),
            LoadStep::Loaded(outcomes[k].unwrap()),
        ),
    decreases k - index,
{
    if index < k {
        assert(outcomes[index] is None);
        lemma_run_found(m, index + 1, outcomes, k);
    }
}

/// Loading tries the configured names in order and keeps the first library
/// that opens; it is refused while a handle is present, and fails with
/// "Library not found." when no name opens.
pub proof fn law_load_keeps_first_opened(m: LibraryModel, outcomes: Seq<Option<DylibHandle>>)
    ensures
        m.handle != 0 ==> load_run(m, outcomes) == (m, LoadStep::Failed(Error::AlreadyLoaded)),
        m.handle == 0 && (forall|i: int| 0 <= i < m.dylib_names.len() ==> outcomes[i] is None)
            ==> load_run(m, outcomes) == (m, LoadStep::Failed(Error::LibraryNotFound)),
        forall|k: int|
            m.handle == 0 && 0 <= k < m.dylib_names.len() && #[trigger] outcomes[k] is Some && (
            forall|i: int| 0 <= i < k ==> outcomes[i] is None) ==> load_run(m, outcomes) == (
                m.with_handle(outcomes[k].unwrap().0),
                LoadStep::Loaded(outcomes[k].unwrap()),
            ),
{
    if m.handle == 0 && m.dylib_names.len() > 0 {
        if forall|i: int| 0 <= i < m.dylib_names.len() ==> outcomes[i] is None {
            lemma_run_none(m, 0, outcomes);
        }
        assert forall|k: int|
            0 <= k < m.dylib_names.len() && #[trigger] outcomes[k] is Some && (forall|i: int|
                0 <= i < k ==> outcomes[i] is None) implies load_run(m, outcomes) == (
            m.with_handle(outcomes[k].unwrap().0),
            LoadStep::Loaded(outcomes[k].unwrap()),
        ) by {
            lemma_run_found(m, 0, outcomes, k);
        }
    }
}

/// The handle reads back as what was set: `Some` of it, unless it is zero.
pub proof fn law_handle_reads_back(m: LibraryModel, handle: DylibHandle)
    ensures
        m.with_handle(handle.0).loaded_handle() == if handle.0 != 0 {
            Some(handle)
        } else {
            None
        },
{
}

/// Once a handle is present (set, or stored by a load that succeeded),
/// loading again, by name or from a path, is refused with "Already loaded.".
pub proof fn law_loaded_refuses_load(m: LibraryModel, handle: DylibHandle)
    requires
        handle.0 != 0,
    ensures
        m.with_handle(handle.0).load_step() == LoadStep::Failed(Error::AlreadyLoaded),
        m.with_handle(handle.0).loaded_handle() is Some,
{
}

/// A resolved address is kept in the symbol's entry; in checked mode a later
/// resolution of the symbol hands it back without a lookup. The entries of the
/// other symbols and the handle stay as they were.
pub proof fn law_resolved_address_is_kept(
    m: LibraryModel,
    sym_index: int,
    other: int,
    address: Address,
)
    requires
        m.well_formed(),
        m.valid_symbol(sym_index),
        m.valid_symbol(other),
        other != sym_index,
    ensures
        m.with_entry(sym_index, address).entry(sym_index) == address,
        m.with_entry(sym_index, address).entry(other) == m.entry(other),
        m.with_entry(sym_index, address).well_formed(),
        m.with_entry(sym_index, address).handle == m.handle,
        m.checked is None ==> m.with_entry(sym_index, address).symbol_table[sym_index] == address,
        m.checked is Some && address != 0 ==> m.with_entry(sym_index, address).resolve_step(
            sym_index,
        ) == SymbolStep::Cached(address),
{
}

/// Withdrawing what was asserted for a thread gives back its counters as
/// they were: `if_resolved` leaves no trace on the thread. It holds wherever
/// asserting is defined: raising a counter past a byte is a panic, which
/// `assert_resolved` excludes by its `requires`.
pub proof fn law_deassert_undoes_assert(counts: Seq<u8>, sym_indices: Seq<u32>)
    requires
        can_raise(counts, sym_indices),
    ensures
        lower_all(raise_all(counts, sym_indices), sym_indices) == counts,
{
    assert(lower_all(raise_all(counts, sym_indices), sym_indices) =~= counts);
}

proof fn lemma_occurs(s: Seq<u32>, k: int)
    requires
        0 <= k < s.len(),
    ensures
        occurrences(s, s[k] as int) > 0,
    decreases s.len(),
{
    if k < s.len() - 1 {
        lemma_occurs(s.drop_last(), k);
    }
}

/// While a thread holds its assertion of a group's symbols, each of them
/// passes the check of checked mode in that thread.
pub proof fn law_asserted_symbols_pass(
    m: LibraryModel,
    counts: Seq<u8>,
    sym_indices: Seq<u32>,
    k: int,
)
    requires
        m.well_formed(),
        can_raise(counts, sym_indices),
        0 <= k < sym_indices.len(),
        sym_indices[k] < m.symbol_count(),
    ensures
        m.asserted(sym_indices[k] as int, Some(raise_all(counts, sym_indices))),
{
    lemma_occurs(sym_indices, k);
}

/// A symbol asserted for all threads passes the check of checked mode in
/// every thread, whatever its counters.
pub proof fn law_global_assertion_passes(
    m: LibraryModel,
    sym_indices: Seq<u32>,
    k: int,
    thread_counts: Option<Seq<u8>>,
)
    requires
        m.well_formed(),
        0 <= k < sym_indices.len(),
        sym_indices[k] < m.symbol_count(),
    ensures
        m.with_global_asserted(sym_indices).asserted(sym_indices[k] as int, thread_counts),
{
    lemma_occurs(sym_indices, k);
}

/// A global assertion is for good: asserting more symbols, setting the
/// handle and resolving addresses keep it.
pub proof fn law_global_assertion_persists(
    m: LibraryModel,
    sym_index: int,
    more: Seq<u32>,
    handle: usize,
    resolved: int,
    address: Address,
)
    requires
        m.well_formed(),
        m.valid_symbol(resolved),
        0 <= sym_index < m.symbol_count(),
        m.asserted(sym_index, None),
    ensures
        m.with_global_asserted(more).asserted(sym_index, None),
        m.with_handle(handle).asserted(sym_index, None),
        m.with_entry(resolved, address).asserted(sym_index, None),
{
}

/// In plain mode every symbol passes the check, in every thread.
pub proof fn law_plain_mode_never_checks(m: LibraryModel, sym_index: int, thread_counts: Option<
    Seq<u8>,
>)
    requires
        m.checked is None,
    ensures
        m.asserted(sym_index, thread_counts),
{
}

/// Resolving every symbol of a group, going on from the symbol at `position`,
/// where `outcomes[i]` is how the symbol at `i` resolved: the step where the
/// run ends. A symbol that resolved leads to the next, as `next_step` says.
pub open spec fn group_run_from(
    g: GroupModel,
    position: int,
    outcomes: Seq<Result<Address, Error>>,
) -> GroupStep
    decreases g.sym_indices.len() - position,
{
    if 0 <= position < g.sym_indices.len() {
        if outcomes[position] is Ok && position + 1 < g.sym_indices.len() {
            group_run_from(g, position + 1, outcomes)
        } else {
            g.next_step(position, outcomes[position])
        }
    } else {
        GroupStep::Done(Ok(()))
    }
}

/// Where a group run goes on, the step says so: the next symbol.
pub proof fn law_resolved_symbol_goes_on(g: GroupModel, position: int, address: Address)
    requires
        0 <= position,
        position + 1 < g.sym_indices.len(),
    ensures
        g.next_step(position, Ok(address)) == (GroupStep::Resolve {
            position: (position + 1) as usize,
            sym_index: g.sym_indices[position + 1],
        }),
{
}

proof fn lemma_group_run_ok(g: GroupModel, position: int, outcomes: Seq<Result<Address, Error>>)
    requires
        0 <= position <= g.sym_indices.len(),
        forall|i: int| position <= i < g.sym_indices.len() ==> outcomes[i] is Ok,
    ensures
        group_run_from(g, position, outcomes) == GroupStep::Done(Ok(())),
    decreases g.sym_indices.len() - position,
{
    if position < g.sym_indices.len() {
        assert(outcomes[position] is Ok);
        if position + 1 < g.sym_indices.len() {
            lemma_group_run_ok(g, position + 1, outcomes);
        }
    }
}

proof fn lemma_group_run_err(
    g: GroupModel,
    position: int,
    outcomes: Seq<Result<Address, Error>>,
    k: int,
)
    requires
        0 <= position <= k < g.sym_indices.len(),
        outcomes[k] is Err,
        forall|i: int| position <= i < k ==> outcomes[i] is Ok,
    ensures
        group_run_from(g, position, outcomes) == GroupStep::Done(Err(outcomes[k]->Err_0)),
    decreases k - position,
{
    if position < k {
        assert(outcomes[position] is Ok);
        lemma_group_run_err(g, position + 1, outcomes, k);
    }
}

/// Resolving a group unconditionally resolves its symbols in order and stops
/// at the first error, which it hands back; when every symbol resolves, the
/// run ends well.
pub proof fn law_group_run_stops_at_first_error(
    g: GroupModel,
    outcomes: Seq<Result<Address, Error>>,
)
    ensures
        (forall|i: int| 0 <= i < g.sym_indices.len() ==> outcomes[i] is Ok) ==> group_run_from(
            g,
            0,
            outcomes,
        ) == GroupStep::Done(Ok(())),
        forall|k: int|
            0 <= k < g.sym_indices.len() && #[trigger] outcomes[k] is Err && (forall|i: int|
                0 <= i < k ==> outcomes[i] is Ok) ==> group_run_from(g, 0, outcomes)
                == GroupStep::Done(Err(outcomes[k]->Err_0)),
{
    if forall|i: int| 0 <= i < g.sym_indices.len() ==> outcomes[i] is Ok {
        lemma_group_run_ok(g, 0, outcomes);
    }
    assert forall|k: int|
        0 <= k < g.sym_indices.len() && #[trigger] outcomes[k] is Err && (forall|i: int|
            0 <= i < k ==> outcomes[i] is Ok) implies group_run_from(g, 0, outcomes)
        == GroupStep::Done(Err(outcomes[k]->Err_0)) by {
        lemma_group_run_err(g, 0, outcomes, k);
    }
}

proof fn lemma_group_run_done(g: GroupModel, position: int, outcomes: Seq<Result<Address, Error>>)
    requires
        0 <= position,
    ensures
        group_run_from(g, position, outcomes) is Done,
    decreases g.sym_indices.len() - position,
{
    if position < g.sym_indices.len() && outcomes[position] is Ok && position + 1
        < g.sym_indices.len() {
        lemma_group_run_done(g, position + 1, outcomes);
    }
}

/// A group's answer is how the run over its symbols ended: once
/// `resolve_finish` (or `resolve_finish_scoped`) records the run, the group
/// answers `Ok` when every symbol resolved, and otherwise the first error
/// met, and keeps answering so.
pub proof fn law_group_answer_follows_run(
    g: GroupModel,
    outcomes: Seq<Result<Address, Error>>,
    marked: bool,
)
    ensures
        group_run_from(g, 0, outcomes) is Done,
        forall|run: Result<(), Error>|
            #[trigger] g.finished(run, marked).answer() == Some(
                if run is Ok {
                    Ok::<(), Error>(())
                } else {
                    run
                },
            ),
        (forall|i: int| 0 <= i < g.sym_indices.len() ==> outcomes[i] is Ok) ==> g.finished(
            group_run_from(g, 0, outcomes)->Done_0,
            marked,
        ).answer() == Some(Ok::<(), Error>(())),
        forall|k: int|
            0 <= k < g.sym_indices.len() && #[trigger] outcomes[k] is Err && (forall|i: int|
                0 <= i < k ==> outcomes[i] is Ok) ==> g.finished(
                group_run_from(g, 0, outcomes)->Done_0,
                marked,
            ).answer() == Some(Err::<(), Error>(outcomes[k]->Err_0)),
{
    lemma_group_run_done(g, 0, outcomes);
    law_group_run_stops_at_first_error(g, outcomes);
}

/// `resolve` answers from its cache once the group was resolved through it
/// (`Ok`) or failed (the error), and asks for the marking when the group was
/// resolved inside `if_resolved` only.
pub proof fn law_resolve_answers_from_cache(g: GroupModel, run: Result<(), Error>)
    ensures
        run is Err ==> g.finished(run, true).resolve_step() == ResolveStep::Answer(run),
        run is Err ==> g.finished(run, false).resolve_step() == ResolveStep::Answer(run),
        run is Ok ==> g.finished(run, true).resolve_step() == ResolveStep::Answer(
            Ok::<(), Error>(()),
        ),
        run is Ok ==> g.finished(run, false).resolve_step() == ResolveStep::Mark,
{
}

/// `if_resolved` marks the group's symbols only while its code runs: while
/// the calling thread holds its assertion, each symbol of the group passes
/// the check of checked mode; once it is withdrawn, the check of every symbol
/// answers as it did before: recording the run for `if_resolved` leaves the
/// library as it was, and no other thread's counters are touched. (Raising a counter past a byte
/// is a panic, which `assert_resolved` excludes.)
pub proof fn law_if_resolved_marks_only_while_running(
    m: LibraryModel,
    counts: Seq<u8>,
    sym_indices: Seq<u32>,
    sym_index: int,
)
    requires
        m.well_formed(),
        can_raise(counts, sym_indices),
        0 <= sym_index < m.symbol_count(),
        sym_index < counts.len(),
        indices_below(sym_indices, m.symbol_count()),
    ensures
        forall|k: int|
            0 <= k < sym_indices.len() ==> m.asserted(
                #[trigger] sym_indices[k] as int,
                Some(raise_all(counts, sym_indices)),
            ),
        m.asserted(sym_index, Some(lower_all(raise_all(counts, sym_indices), sym_indices)))
            == m.asserted(sym_index, Some(counts)),
{
    law_deassert_undoes_assert(counts, sym_indices);
    assert forall|k: int|
        0 <= k < sym_indices.len() implies m.asserted(
        #[trigger] sym_indices[k] as int,
        Some(raise_all(counts, sym_indices)),
    ) by {
        law_asserted_symbols_pass(m, counts, sym_indices, k);
    }
}

/// Resolving a symbol looks it up only in a loaded library, with its handle:
/// a lookup never goes out with handle zero; while no library is loaded and
/// no address is cached, the library is loaded first. An address is handed
/// back from the cache only in checked mode, and only one that was resolved
/// (not zero) and kept in the symbol's entry.
pub proof fn law_lookup_only_in_loaded_library(m: LibraryModel, sym_index: int)
    ensures
        m.resolve_step(sym_index) matches SymbolStep::Lookup(h) ==> h.0 == m.handle && h.0 != 0,
        m.resolve_step(sym_index) is Load ==> m.handle == 0,
        m.resolve_step(sym_index) matches SymbolStep::Cached(a) ==> m.checked is Some && a
            == m.entry(sym_index) && a != 0,
        (m.checked is None || m.entry(sym_index) == 0) ==> if m.handle != 0 {
            m.resolve_step(sym_index) == SymbolStep::Lookup(DylibHandle(m.handle))
        } else {
            m.resolve_step(sym_index) == SymbolStep::Load
        },
{
}

/// A run over a group resolves every one of its symbols, in order: the step
/// at each position of the group resolves the symbol there, and only past
/// the last one does the run end well (at once only for the empty group).
pub proof fn law_group_run_resolves_every_symbol(g: GroupModel, position: int)
    requires
        0 <= position,
    ensures
        position < g.sym_indices.len() ==> g.step_at(position) == (GroupStep::Resolve {
            position: position as usize,
            sym_index: g.sym_indices[position],
        }),
        position >= g.sym_indices.len() ==> g.step_at(position) == GroupStep::Done(
            Ok::<(), Error>(()),
        ),
        g.sym_indices.len() > 0 ==> g.step_at(0) == (GroupStep::Resolve {
            position: 0,
            sym_index: g.sym_indices[0],
        }),
        g.sym_indices.len() == 0 ==> g.step_at(0) == GroupStep::Done(Ok::<(), Error>(())),
{
}

proof fn lemma_save_lines_prefix(m: nat, n: nat)
    requires
        m <= n,
    ensures
        save_lines(m).len() <= save_lines(n).len(),
        save_lines(n).subrange(0, save_lines(m).len() as int) == save_lines(m),
    decreases n - m,
{
    if m < n {
        lemma_save_lines_prefix(m, (n - 1) as nat);
        assert(save_lines(n).subrange(0, save_lines(m).len() as int) =~= save_lines(
            (n - 1) as nat,
        ).subrange(0, save_lines(m).len() as int));
    } else {
        assert(save_lines(n).subrange(0, save_lines(m).len() as int) =~= save_lines(m));
    }
}

proof fn lemma_restore_lines_prefix(m: nat, n: nat)
    requires
        m <= n,
    ensures
        restore_lines(m).len() <= restore_lines(n).len(),
        restore_lines(n).subrange(0, restore_lines(m).len() as int) == restore_lines(m),
    decreases n - m,
{
    if m < n {
        lemma_restore_lines_prefix(m, (n - 1) as nat);
        assert(restore_lines(n).subrange(0, restore_lines(m).len() as int) =~= restore_lines(
            (n - 1) as nat,
        ).subrange(0, restore_lines(m).len() as int));
    } else {
        assert(restore_lines(n).subrange(0, restore_lines(m).len() as int) =~= restore_lines(m));
    }
}

/// The binder saves each register in a slot of its own, inside its frame of
/// 144 bytes, and saves no register twice.
pub proof fn law_binder_slots_are_distinct()
    ensures
        forall|i: int|
            0 <= i < saved_count() ==> #[trigger] saved_offset(i) % 8 == 0 && saved_offset(i) + 8
                <= 144,
        forall|i: int, j: int|
            0 <= i < saved_count() && 0 <= j < saved_count() && i != j ==> #[trigger] saved_offset(
                i,
            ) != #[trigger] saved_offset(j),
        forall|i: int, j: int|
            0 <= i < saved_count() && 0 <= j < saved_count() && i != j ==> #[trigger] saved_register(
                i,
            ) != #[trigger] saved_register(j),
{
    reveal_strlit("$ra");
    reveal_strlit("$a0");
    reveal_strlit("$a1");
    reveal_strlit("$a2");
    reveal_strlit("$a3");
    reveal_strlit("$a4");
    reveal_strlit("$a5");
    reveal_strlit("$a6");
    reveal_strlit("$a7");
    reveal_strlit("$t0");
    reveal_strlit("$t1");
    reveal_strlit("$t2");
    reveal_strlit("$t3");
    reveal_strlit("$t4");
    reveal_strlit("$t5");
    reveal_strlit("$t6");
    reveal_strlit("$t7");
    reveal_strlit("$t8");
    assert forall|i: int, j: int|
        0 <= i < saved_count() && 0 <= j < saved_count() && i != j implies #[trigger] saved_register(
        i,
    ) != #[trigger] saved_register(j) by {
        if saved_register(i) == saved_register(j) {
            assert(saved_register(i)[1] == saved_register(j)[1]);
            assert(saved_register(i)[2] == saved_register(j)[2]);
        }
    }
}

/// The binder restores the register of slot `i` from the very slot it saved
/// it to: for the register `r` at offset `k`, the lines before the call of
/// the resolver hold `st.d r, $sp, k` and the lines after it `ld.d r, $sp, k`.
pub proof fn law_binder_restores_from_saved_slot(i: int)
    requires
        0 <= i < saved_count(),
    ensures
        exists|pre: Seq<char>, post: Seq<char>|
            #![auto]
            binder_prologue() == pre + ("    st.d "@ + saved_register(i) + ", $sp, "@ + decimal(
                saved_offset(i),
            ) + "\n"@) + post,
        exists|pre: Seq<char>, post: Seq<char>|
            #![auto]
            binder_epilogue() == pre + ("    ld.d "@ + saved_register(i) + ", $sp, "@ + decimal(
                saved_offset(i),
            ) + "\n"@) + post,
{
    let head = "    .cfi_startproc\n"@ + "    addi.d $sp, $sp, -144\n"@;
    let all = save_lines(saved_count());
    let line = "    st.d "@ + saved_register(i) + ", $sp, "@ + decimal(saved_offset(i)) + "\n"@;
    let upto = save_lines((i + 1) as nat);
    lemma_save_lines_prefix((i + 1) as nat, saved_count());
    assert(upto == save_lines(i as nat) + line);
    let post = all.skip(upto.len() as int) + "    move $a0, $r21\n"@;
    assert(all =~= upto + all.skip(upto.len() as int));
    let pre = head + save_lines(i as nat);
    assert(binder_prologue() =~= pre + line + post);

    let rall = restore_lines(saved_count());
    let rline = "    ld.d "@ + saved_register(i) + ", $sp, "@ + decimal(saved_offset(i)) + "\n"@;
    let n = (saved_count() - i) as nat;
    let rupto = restore_lines(n);
    lemma_restore_lines_prefix(n, saved_count());
    assert(rupto == restore_lines((n - 1) as nat) + rline);
    let rpost = rall.skip(rupto.len() as int) + "    addi.d $sp, $sp, 144\n"@
        + "    jirl $r0, $r21, 0\n"@ + "    .cfi_endproc\n"@;
    assert(rall =~= rupto + rall.skip(rupto.len() as int));
    let rpre = "    move $r21, $a0\n"@ + restore_lines((n - 1) as nat);
    assert(binder_epilogue() =~= rpre + rline + rpost);
}

} // verus!
