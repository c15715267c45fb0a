use std::sync::Arc;
use arc_swap::ArcSwapOption;
use vstd::prelude::*;
use crate::config::Config;
use crate::validate::ValidationError;

verus! {

/// The process-wide holder of the current configuration snapshot: empty until
/// it is initialized, then holding one immutable snapshot at a time, replaced
/// whole by each update. Readers never block and never see a partial snapshot.
#[verifier::external_body]
pub struct ConfigCell {
    inner: ArcSwapOption<Config>,
}

/// A misuse of the cell's lifecycle.
#[derive(Clone, Copy, Debug, PartialEq, Eq, Structural)]
pub enum UsageError {
    /// The cell was read or updated before it was initialized.
    NotInitialized,
}

/// What an initialization did.
#[derive(Clone, Copy, Debug, PartialEq, Eq, Structural)]
pub enum InitOutcome {
    /// This call's snapshot was installed.
    Installed,
    /// The cell already held a snapshot, possibly installed by a concurrent
    /// call; it was left as it was.
    AlreadyInitialized,
}

impl ConfigCell {
    /// Relies on arc_swap::ArcSwapOption::empty: a cell that holds no snapshot.
    #[verifier::external_body]
    fn empty() -> (r: ConfigCell) {
        ConfigCell { inner: ArcSwapOption::empty() }
    }

    /// Relies on arc_swap::ArcSwapAny::load_full: the snapshot held at the
    /// moment of the call, if any. Another thread may replace it at any time,
    /// so nothing is stated of which one it is.
    #[verifier::external_body]
    fn load_full(&self) -> (r: Option<Arc<Config>>) {
        self.inner.load_full()
    }

    /// A cell in the empty state.
    pub fn new() -> (r: ConfigCell) {
        ConfigCell::empty()
    }

    /// A lock-free read of the current snapshot; `None` before initialization.
    pub fn current(&self) -> (r: Option<Arc<Config>>) {
        self.load_full()
    }

    /// Relies on arc_swap::ArcSwapAny::compare_and_swap: installs `new` if the
    /// cell still holds `current` (compared by pointer) and returns what it held
    /// before, whether or not the swap happened.
    #[verifier::external_body]
    fn compare_and_swap(&self, current: &Option<Arc<Config>>, new: Option<Arc<Config>>) -> (r: Option<Arc<Config>>) {
        arc_swap::Guard::into_inner(self.inner.compare_and_swap(current, new))
    }

    /// Relies on arc_swap::ArcSwapAny::rcu: replaces the held value by
    /// `apply_update` of it, retrying on a concurrent change until the swap
    /// succeeds, and returns the value whose update won the swap. A returned
    /// snapshot is therefore one that `f` was applied to, through a copy.
    #[verifier::external_body]
    fn read_copy_update<F: Fn(Config) -> Config>(&self, f: &F) -> (r: Option<Arc<Config>>)
        requires
            forall|c: Config| f.requires((c,)),
        ensures
            r matches Some(old) ==> exists|x: Config, n: Config| x@ == old@ && f.ensures((x,), n),
    {
        self.inner.rcu(|held| apply_update(held, f))
    }
}

/// One attempt of an update: the snapshot that replaces `held`. An empty cell
/// stays empty; a held snapshot is copied and the copy given to `f`.
pub fn apply_update<F: Fn(Config) -> Config>(held: &Option<Arc<Config>>, f: &F) -> (r: Option<Arc<Config>>)
    requires
        forall|c: Config| f.requires((c,)),
    ensures
        held is None <==> r is None,
        r matches Some(n) ==> exists|x: Config| x@ == held.unwrap()@ && f.ensures((x,), *n),
{
    match held {
        Some(c) => {
            let copy = c.duplicate();
            let ghost given = copy;
            let n = f(copy);
            let installed = Arc::new(n);
            let r = Some(installed);
            assert(given@ == held.unwrap()@ && f.ensures((given,), *r.unwrap()));
            r
        },
        None => None,
    }
}

/// What an initialization did, from what the cell held when it was read or
/// when the swap was tried: it installed only if the cell was empty.
pub fn init_outcome(previous: &Option<Arc<Config>>) -> (r: InitOutcome)
    ensures
        previous is None <==> r == InitOutcome::Installed,
{
    match previous {
        None => InitOutcome::Installed,
        Some(_) => InitOutcome::AlreadyInitialized,
    }
}

/// The snapshot that stands after an attempt to install `installed`: the one
/// the cell already held if the swap found one, else `installed`.
pub fn settle(previous: Option<Arc<Config>>, installed: Arc<Config>) -> (r: Arc<Config>)
    ensures
        previous matches Some(w) ==> r == w,
        previous is None ==> r == installed,
{
    match previous {
        Some(winner) => winner,
        None => installed,
    }
}

/// The result of an update, from the value its read-copy-update replaced: an
/// empty cell rejects the update.
pub fn update_outcome(replaced: &Option<Arc<Config>>) -> (r: Result<(), UsageError>)
    ensures
        replaced is None <==> r == Err::<(), UsageError>(UsageError::NotInitialized),
        replaced is Some <==> r is Ok,
{
    match replaced {
        Some(_) => Ok(()),
        None => Err(UsageError::NotInitialized),
    }
}

/// Installs the result of a load into a cell that was found empty: a failed
/// load installs nothing and returns its errors; a snapshot is offered to the
/// cell with a single compare-and-swap, which a concurrent call may have won.
pub fn install_loaded(cell: &ConfigCell, loaded: Result<Config, Vec<ValidationError>>) -> (r: Result<
    InitOutcome,
    Vec<ValidationError>,
>)
    ensures
        loaded matches Err(es) ==> r == Err::<InitOutcome, Vec<ValidationError>>(es),
        loaded is Ok <==> r is Ok,
{
    match loaded {
        Ok(candidate) => {
            let previous = cell.compare_and_swap(&None, Some(Arc::new(candidate)));
            Ok(init_outcome(&previous))
        },
        Err(es) => Err(es),
    }
}

/// Initialization, given what a read of the cell found: a held snapshot is
/// left as it is and `loader` is not run; an empty cell gets what `loader`
/// gives, as `install_loaded` says.
pub fn resolve_init<L: FnOnce() -> Result<Config, Vec<ValidationError>>>(
    cell: &ConfigCell,
    observed: &Option<Arc<Config>>,
    loader: L,
) -> (r: Result<InitOutcome, Vec<ValidationError>>)
    requires
        observed is None ==> loader.requires(()),
    ensures
        observed is Some ==> r == Ok::<InitOutcome, Vec<ValidationError>>(
            InitOutcome::AlreadyInitialized,
        ),
        observed is None ==> (r matches Err(es) ==> loader.ensures((), Err(es))),
        observed is None ==> (r is Ok ==> exists|c: Config| loader.ensures((), Ok(c))),
        observed is None && (forall|x: Result<Config, Vec<ValidationError>>|
            loader.ensures((), x) ==> x is Ok) ==> r is Ok,
        observed is None && (forall|x: Result<Config, Vec<ValidationError>>|
            loader.ensures((), x) ==> x is Err) ==> r is Err,
{
    if observed.is_some() {
        return Ok(init_outcome(observed));
    }
    let loaded = loader();
    proof {
        if loaded is Ok {
            assert(loader.ensures((), Ok(loaded.unwrap())));
        }
    }
    install_loaded(cell, loaded)
}

/// Initializes the cell once: if it is empty, runs `loader` and installs its
/// snapshot with a single compare-and-swap. A cell that already holds a
/// snapshot, or that a concurrent call filled first, is left as it is and
/// `loader`'s snapshot is dropped. A failing `loader` installs nothing and its
/// errors are returned. See `resolve_init` for each case.
pub fn init_config<L: FnOnce() -> Result<Config, Vec<ValidationError>>>(cell: &ConfigCell, loader: L) -> (r: Result<InitOutcome, Vec<ValidationError>>)
    requires
        loader.requires(()),
    ensures
        r matches Err(es) ==> loader.ensures((), Err(es)),
        r matches Ok(InitOutcome::Installed) ==> exists|c: Config| loader.ensures((), Ok(c)),
        (forall|x: Result<Config, Vec<ValidationError>>| loader.ensures((), x) ==> x is Ok) ==> r is Ok,
{
    let observed = cell.current();
    resolve_init(cell, &observed, loader)
}

/// Settles a read of an empty cell with the result of a load: a failed load
/// installs nothing and returns its errors; a snapshot is offered to the cell,
/// and the one that then stands is returned, as `settle` says.
pub fn settle_loaded(cell: &ConfigCell, loaded: Result<Config, Vec<ValidationError>>) -> (r: Result<
    Arc<Config>,
    Vec<ValidationError>,
>)
    ensures
        loaded matches Err(es) ==> r == Err::<Arc<Config>, Vec<ValidationError>>(es),
        loaded is Ok <==> r is Ok,
{
    match loaded {
        Ok(candidate) => {
            let installed = Arc::new(candidate);
            let previous = cell.compare_and_swap(&None, Some(installed.clone()));
            Ok(settle(previous, installed))
        },
        Err(es) => Err(es),
    }
}

/// The current snapshot, given what a read of the cell found: a held snapshot
/// is returned as it is and `loader` is not run. An empty cell is initialized
/// with `loader`, as `init_config` would, and the snapshot that then stands is
/// returned: the loaded one, or the one a concurrent call installed first.
pub fn resolve_config<L: FnOnce() -> Result<Config, Vec<ValidationError>>>(
    cell: &ConfigCell,
    observed: Option<Arc<Config>>,
    loader: L,
) -> (r: Result<Arc<Config>, Vec<ValidationError>>)
    requires
        observed is None ==> loader.requires(()),
    ensures
        observed matches Some(h) ==> r == Ok::<Arc<Config>, Vec<ValidationError>>(h),
        observed is None ==> (r matches Err(es) ==> loader.ensures((), Err(es))),
        observed is None ==> (r is Ok ==> exists|c: Config| loader.ensures((), Ok(c))),
        observed is None && (forall|x: Result<Config, Vec<ValidationError>>|
            loader.ensures((), x) ==> x is Ok) ==> r is Ok,
        observed is None && (forall|x: Result<Config, Vec<ValidationError>>|
            loader.ensures((), x) ==> x is Err) ==> r is Err,
{
    match observed {
        Some(held) => Ok(held),
        None => {
            let loaded = loader();
            proof {
                if loaded is Ok {
                    assert(loader.ensures((), Ok(loaded.unwrap())));
                }
            }
            settle_loaded(cell, loaded)
        },
    }
}

/// The current snapshot. A cell that was never initialized is initialized here
/// with `loader`, as `init_config` would; this fallback only tolerates a
/// missing explicit initialization. See `resolve_config` for what is returned.
pub fn config<L: FnOnce() -> Result<Config, Vec<ValidationError>>>(cell: &ConfigCell, loader: L) -> (r: Result<Arc<Config>, Vec<ValidationError>>)
    requires
        loader.requires(()),
    ensures
        r matches Err(es) ==> loader.ensures((), Err(es)),
        (forall|x: Result<Config, Vec<ValidationError>>| loader.ensures((), x) ==> x is Ok) ==> r is Ok,
{
    let observed = cell.current();
    resolve_config(cell, observed, loader)
}

/// Updates the held snapshot by read, copy, apply `f`, compare-and-swap,
/// retrying on a concurrent change, so that no concurrent update is lost.
/// An empty cell is left empty and the update is rejected. A success means
/// that `f` was applied to a copy of a snapshot the cell held, and its result
/// installed in that snapshot's place.
pub fn update<F: Fn(Config) -> Config>(cell: &ConfigCell, f: F) -> (r: Result<(), UsageError>)
    requires
        forall|c: Config| f.requires((c,)),
    ensures
        r is Ok ==> exists|old: Config, x: Config, n: Config| x@ == old@ && f.ensures((x,), n),
{
    let replaced = cell.read_copy_update(&f);
    let r = update_outcome(&replaced);
    proof {
        if r is Ok {
            let old = replaced.unwrap();
            let (x, n) = choose|x: Config, n: Config| x@ == old@ && f.ensures((x,), n);
            assert(x@ == (*old)@ && f.ensures((x,), n));
        }
    }
    r
}

} // verus!
