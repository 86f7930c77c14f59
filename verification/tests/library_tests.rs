use weaklink::group::{Group, GroupStep, ResolveStep};
use weaklink::library::{DylibHandle, Ensured, Error, LazyStep, Library, LoadStep, SymbolStep};
use weaklink::boxed_slice;

const NAMES: &[&str] = &["libfoo.so", "libfoo.so.1"];
const SYMBOLS: &[&str] = &["foo_open", "foo_read", "foo_close"];

fn plain() -> Library {
    Library::new(NAMES, SYMBOLS, vec![0, 0, 0])
}

fn checked() -> Library {
    Library::new_checked(NAMES, SYMBOLS, vec![0, 0, 0])
}

#[test]
fn new_library_is_not_loaded() {
    let lib = plain();
    assert_eq!(lib.handle(), None);
    assert!(!lib.is_checked());
    assert_eq!(lib.symbol_count(), 3);
    assert_eq!(lib.dylib_name_count(), 2);
    assert_eq!(lib.dylib_name(1), "libfoo.so.1");
    assert_eq!(lib.symbol_name(2), "foo_close");
    assert!(checked().is_checked());
}

#[test]
fn handle_reads_back_what_was_set() {
    let mut lib = plain();
    lib.set_handle(DylibHandle(0x1234));
    assert_eq!(lib.handle(), Some(DylibHandle(0x1234)));
    lib.set_handle(DylibHandle(0));
    assert_eq!(lib.handle(), None);
}

#[test]
fn load_starts_with_first_name() {
    let lib = plain();
    assert_eq!(lib.load(), LoadStep::Open(0));
}

#[test]
fn load_without_names_fails() {
    let lib = Library::new(&[], SYMBOLS, vec![0, 0, 0]);
    assert_eq!(lib.load(), LoadStep::Failed(Error::LibraryNotFound));
}

#[test]
fn load_keeps_first_name_that_opens() {
    let mut lib = plain();
    assert_eq!(lib.load(), LoadStep::Open(0));
    assert_eq!(lib.load_next(0, None), LoadStep::Open(1));
    assert_eq!(lib.handle(), None);
    assert_eq!(lib.load_next(1, Some(DylibHandle(77))), LoadStep::Loaded(DylibHandle(77)));
    assert_eq!(lib.handle(), Some(DylibHandle(77)));
}

#[test]
fn load_fails_when_no_name_opens() {
    let mut lib = plain();
    assert_eq!(lib.load_next(0, None), LoadStep::Open(1));
    let step = lib.load_next(1, None);
    assert_eq!(step, LoadStep::Failed(Error::LibraryNotFound));
    if let LoadStep::Failed(e) = step {
        assert_eq!(e.message(), "Library not found.");
    }
    assert_eq!(lib.handle(), None);
}

#[test]
fn load_is_refused_when_loaded() {
    let mut lib = plain();
    lib.set_handle(DylibHandle(5));
    let step = lib.load();
    assert_eq!(step, LoadStep::Failed(Error::AlreadyLoaded));
    assert_eq!(Error::AlreadyLoaded.message(), "Already loaded.");
    assert_eq!(lib.load_from(), Err(Error::AlreadyLoaded));
}

#[test]
fn load_from_stores_handle() {
    let mut lib = plain();
    assert_eq!(lib.load_from(), Ok(()));
    assert_eq!(lib.load_from_finish(Ok(DylibHandle(9))), Ok(DylibHandle(9)));
    assert_eq!(lib.handle(), Some(DylibHandle(9)));
    assert_eq!(lib.load_from(), Err(Error::AlreadyLoaded));
}

#[test]
fn load_from_passes_loader_error() {
    let mut lib = plain();
    let res = lib.load_from_finish(Err("no such file".to_string()));
    assert_eq!(res, Err(Error::System("no such file".to_string())));
    assert_eq!(res.unwrap_err().message(), "no such file");
    assert_eq!(lib.handle(), None);
}

#[test]
fn resolve_symbol_loads_first() {
    let lib = plain();
    assert_eq!(lib.resolve_symbol(1), SymbolStep::Load);
}

#[test]
fn resolve_symbol_writes_symbol_table_in_plain_mode() {
    let mut lib = plain();
    lib.set_handle(DylibHandle(3));
    assert_eq!(lib.resolve_symbol(1), SymbolStep::Lookup(DylibHandle(3)));
    assert_eq!(lib.resolve_symbol_finish(1, Ok(0xdead)), Ok(0xdead));
    assert_eq!(lib.symbol_address(1), 0xdead);
    assert_eq!(lib.symbol_address(0), 0);
    // plain mode keeps no cache of its own: the stub reads the table
    assert_eq!(lib.resolve_symbol(1), SymbolStep::Lookup(DylibHandle(3)));
}

#[test]
fn resolve_symbol_error_changes_nothing() {
    let mut lib = plain();
    lib.set_handle(DylibHandle(3));
    let res = lib.resolve_symbol_finish(2, Err("undefined symbol".to_string()));
    assert_eq!(res, Err(Error::System("undefined symbol".to_string())));
    assert_eq!(lib.symbol_address(2), 0);
}

#[test]
fn checked_mode_caches_in_shadow_table() {
    let mut lib = checked();
    lib.set_handle(DylibHandle(3));
    assert_eq!(lib.resolve_symbol(0), SymbolStep::Lookup(DylibHandle(3)));
    assert_eq!(lib.resolve_symbol_finish(0, Ok(0x1000)), Ok(0x1000));
    assert_eq!(lib.resolve_symbol(0), SymbolStep::Cached(0x1000));
    // the real table stays untouched, so every call keeps going through the check
    assert_eq!(lib.symbol_address(0), 0);
    assert_eq!(lib.resolve_symbol(1), SymbolStep::Lookup(DylibHandle(3)));
}

#[test]
fn plain_mode_never_checks() {
    let lib = plain();
    assert!(lib.check_asserted(0, None));
    assert_eq!(lib.lazy_resolve(0, None), LazyStep::Resolve(SymbolStep::Load));
}

#[test]
fn checked_mode_refuses_unasserted_symbol() {
    let lib = checked();
    assert!(!lib.check_asserted(1, None));
    let counts = vec![0u8, 0, 0];
    assert!(!lib.check_asserted(1, Some(&counts)));
    let step = lib.lazy_resolve(1, Some(&counts));
    assert_eq!(step, LazyStep::Abort(Error::NotAsserted("foo_read")));
    if let LazyStep::Abort(e) = step {
        assert_eq!(
            e.message(),
            "Symbol \"foo_read\" was used without having been asserted as resolved."
        );
    }
}

#[test]
fn thread_assertion_passes_check_and_is_withdrawn() {
    let lib = checked();
    let mut counts: Box<[u8]> = boxed_slice(3);
    lib.assert_resolved(&mut counts, &[0, 2, 2]);
    assert_eq!(&*counts, &[1, 0, 2]);
    assert!(lib.check_asserted(0, Some(&counts)));
    assert!(lib.check_asserted(2, Some(&counts)));
    assert!(!lib.check_asserted(1, Some(&counts)));
    lib.deassert_resolved(&mut counts, &[0, 2, 2]);
    assert_eq!(&*counts, &[0, 0, 0]);
    assert!(!lib.check_asserted(0, Some(&counts)));
}

#[test]
fn assertion_in_plain_mode_changes_nothing() {
    let lib = plain();
    let mut counts: Box<[u8]> = boxed_slice(3);
    lib.assert_resolved(&mut counts, &[0, 1]);
    assert_eq!(&*counts, &[0, 0, 0]);
}

#[test]
fn global_assertion_holds_in_every_thread() {
    let mut lib = checked();
    lib.global_assert_resolved(&[1]);
    assert!(lib.check_asserted(1, None));
    assert!(lib.check_asserted(1, Some(&[0, 0, 0])));
    assert!(!lib.check_asserted(0, None));
    lib.global_assert_resolved(&[1, 1]);
    assert!(lib.check_asserted(1, None));
}

#[test]
fn boxed_slice_is_zeroed() {
    let b: Box<[u8]> = boxed_slice(4);
    assert_eq!(&*b, &[0, 0, 0, 0]);
    let a: Box<[usize]> = boxed_slice(2);
    assert_eq!(&*a, &[0, 0]);
    let e: Box<[u32]> = boxed_slice(0);
    assert!(e.is_empty());
}

#[test]
fn group_resolves_each_symbol_in_order() {
    let group = Group::new(&[2, 0]);
    assert_eq!(group.resolve(), ResolveStep::Run);
    assert_eq!(group.resolve_uncached(), GroupStep::Resolve { position: 0, sym_index: 2 });
    assert_eq!(
        group.resolve_uncached_next(0, Ok(0x10)),
        GroupStep::Resolve { position: 1, sym_index: 0 }
    );
    assert_eq!(group.resolve_uncached_next(1, Ok(0x20)), GroupStep::Done(Ok(())));
}

#[test]
fn group_resolution_stops_at_first_error() {
    let group = Group::new(&[2, 0]);
    assert_eq!(
        group.resolve_uncached_next(0, Err(Error::System("missing".to_string()))),
        GroupStep::Done(Err(Error::System("missing".to_string())))
    );
}

#[test]
fn empty_group_resolves() {
    let group = Group::new(&[]);
    assert_eq!(group.resolve_uncached(), GroupStep::Done(Ok(())));
}

#[test]
fn resolved_group_is_asserted_for_all_threads() {
    let mut lib = checked();
    let mut group = Group::new(&[0, 2]);
    assert_eq!(group.resolve(), ResolveStep::Run);
    assert_eq!(group.resolve_finish(&mut lib, Ok(())), Ok(()));
    assert_eq!(group.resolve(), ResolveStep::Answer(Ok(())));
    assert_eq!(group.resolve(), ResolveStep::Answer(Ok(())));
    assert!(lib.check_asserted(0, None));
    assert!(lib.check_asserted(2, None));
    assert!(!lib.check_asserted(1, None));
    assert_eq!(group.if_resolved(&Ok(())), Ok(()));
}

#[test]
fn failed_group_keeps_its_error() {
    let mut lib = checked();
    let mut group = Group::new(&[0]);
    let cause = Error::System("undefined symbol: foo_open".to_string());
    assert_eq!(group.resolve_finish(&mut lib, Err(cause.clone())), Err(cause.clone()));
    assert_eq!(group.resolve(), ResolveStep::Answer(Err(cause.clone())));
    assert_eq!(group.answer(), Some(Err(cause.clone())));
    assert!(!lib.check_asserted(0, None));
    let err = group.if_resolved(&Err(cause)).unwrap_err();
    assert_eq!(err, Error::GroupUnresolved);
    assert_eq!(err.message(), "Symbol group could not be resolved");
}

#[test]
fn empty_group_resolves_without_loading() {
    let mut lib = plain();
    let mut group = Group::new(&[]);
    assert_eq!(group.resolve(), ResolveStep::Run);
    let run = match group.resolve_uncached() {
        GroupStep::Done(run) => run,
        other => panic!("unexpected step {:?}", other),
    };
    assert_eq!(group.resolve_finish(&mut lib, run), Ok(()));
    assert_eq!(group.resolve(), ResolveStep::Answer(Ok(())));
    assert_eq!(group.resolve(), ResolveStep::Answer(Ok(())));
    assert_eq!(lib.handle(), None);
}

#[test]
fn group_run_error_becomes_the_answer() {
    let mut lib = plain();
    lib.set_handle(DylibHandle(4));
    let mut group = Group::new(&[1, 2]);
    let mut step = group.resolve_uncached();
    let mut outcomes = vec![Ok(0x40), Err(Error::System("missing foo_close".to_string()))].into_iter();
    let run = loop {
        match step {
            GroupStep::Resolve { position, .. } => {
                step = group.resolve_uncached_next(position, outcomes.next().unwrap());
            }
            GroupStep::Done(run) => break run,
        }
    };
    assert_eq!(run, Err(Error::System("missing foo_close".to_string())));
    assert_eq!(group.resolve_finish(&mut lib, run.clone()), run.clone());
    assert_eq!(group.resolve(), ResolveStep::Answer(run));
}

#[test]
fn plain_mode_check_accepts_any_index() {
    let lib = plain();
    assert!(lib.check_asserted(1000, None));
    assert!(lib.check_asserted(7, Some(&[])));
}

#[test]
fn valid_symbols() {
    let lib = plain();
    assert!(lib.is_valid_symbol(2));
    assert!(!lib.is_valid_symbol(3));
}

#[test]
fn error_copies_are_equal() {
    let e = Error::System("x".to_string());
    assert_eq!(e.duplicate(), e);
    assert_eq!(Error::AlreadyLoaded.duplicate(), Error::AlreadyLoaded);
}

#[test]
fn if_resolved_marks_only_while_running() {
    let mut lib = checked();
    let mut group = Group::new(&[1]);
    assert_eq!(group.answer(), None);
    assert_eq!(group.resolve_finish_scoped(Ok(())), Ok(()));
    assert_eq!(group.answer(), Some(Ok(())));
    assert_eq!(group.if_resolved(&Ok(())), Ok(()));
    assert!(!lib.check_asserted(1, None));
    let mut counts: Box<[u8]> = boxed_slice(3);
    lib.assert_resolved(&mut counts, group.sym_indices());
    assert!(lib.check_asserted(1, Some(&counts)));
    lib.deassert_resolved(&mut counts, group.sym_indices());
    // outside if_resolved the symbol is refused again
    assert!(!lib.check_asserted(1, Some(&counts)));
    assert!(!lib.check_asserted(1, None));
    assert_eq!(
        lib.lazy_resolve(1, Some(&counts)),
        LazyStep::Abort(Error::NotAsserted("foo_read"))
    );
    // a later resolve marks it for good
    assert_eq!(group.resolve(), ResolveStep::Mark);
    assert_eq!(group.resolve_mark(&mut lib), Ok(()));
    assert_eq!(group.resolve(), ResolveStep::Answer(Ok(())));
    assert!(lib.check_asserted(1, None));
}

#[test]
fn failed_load_is_fatal() {
    let lib = plain();
    assert_eq!(
        lib.ensure_loaded(0, LoadStep::Failed(Error::LibraryNotFound)),
        Ensured::Panic(Error::LibraryNotFound)
    );
    assert_eq!(
        lib.lazy_resolve_loaded(0, LoadStep::Failed(Error::LibraryNotFound)),
        LazyStep::Abort(Error::LibraryNotFound)
    );
}

#[test]
fn successful_load_goes_on_to_lookup() {
    let mut lib = plain();
    assert_eq!(lib.load_next(0, Some(DylibHandle(8))), LoadStep::Loaded(DylibHandle(8)));
    assert_eq!(
        lib.ensure_loaded(2, LoadStep::Loaded(DylibHandle(8))),
        Ensured::Resolve(SymbolStep::Lookup(DylibHandle(8)))
    );
    assert_eq!(
        lib.lazy_resolve_loaded(2, LoadStep::Loaded(DylibHandle(8))),
        LazyStep::Resolve(SymbolStep::Lookup(DylibHandle(8)))
    );
}

#[test]
fn lazy_lookup_ends_the_call() {
    let mut lib = plain();
    lib.set_handle(DylibHandle(8));
    assert_eq!(lib.lazy_resolve_finish(0, Ok(0x77)), LazyStep::Resolved(0x77));
    assert_eq!(lib.symbol_address(0), 0x77);
    assert_eq!(
        lib.lazy_resolve_finish(1, Err("undefined symbol".to_string())),
        LazyStep::Abort(Error::System("undefined symbol".to_string()))
    );
    assert_eq!(lib.symbol_address(1), 0);
}
