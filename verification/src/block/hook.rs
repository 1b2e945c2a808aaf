//! Hooks: the callables that a context runs before and after its blocks.

use vstd::prelude::*;

verus! {

/// Calls `f` once on `environment`, and returns what it returned, and the
/// environment as the call left it.
pub fn call_on<T, U, F>(f: F, environment: &mut T) -> (returned: (U, Ghost<T>)) where
    F: FnOnce(&mut T) -> U,

    requires
        forall|call: &mut T| *call == *old(environment) ==> #[trigger] call_requires(f, (call,)),
    ensures
        returned.1@ == *final(environment),
        exists|call: &mut T|
            {
                &&& *call == *old(environment)
                &&& *final(call) == *final(environment)
                &&& #[trigger] call_ensures(f, (call,), returned.0)
            },
{
    let ghost called = f;
    let result = f(environment);
    let ghost given = result;
    assert(exists|call: &mut T|
        {
            &&& *call == *old(environment)
            &&& *final(call) == *environment
            &&& #[trigger] call_ensures(called, (call,), given)
        });
    let returned = (result, Ghost(*environment));
    assert(returned.0 == given);
    returned
}

/// Whether one call of `f` on an environment `before` may leave it as
/// `after` and return `result`: whether `call_on`, which makes that one call
/// and nothing else, may find `before` and return `result` and `after`.
pub open spec fn maps<T, U, F: FnOnce(&mut T) -> U>(f: F, before: T, after: T, result: U) -> bool {
    exists|call: &mut T|
        *call == before && #[trigger] call_ensures(
            call_on::<T, U, F>,
            (f, call),
            (result, Ghost(after)),
        )
}

/// What `maps` says of a call, said of the callable itself: there is a call
/// of `f` that found `before`, left `after` and returned `result`.
pub proof fn lemma_maps_is_a_call<T, U, F: FnOnce(&mut T) -> U>(
    f: F,
    before: T,
    after: T,
    result: U,
)
    requires
        maps(f, before, after, result),
    ensures
        exists|call: &mut T|
            {
                &&& *call == before
                &&& *final(call) == after
                &&& #[trigger] call_ensures(f, (call,), result)
            },
{
}

/// Something that can be run on an environment, changing it in place.
pub trait Hook<T>: Send + Sync {
    /// Whether one run of the hook on an environment `before` may leave it
    /// as `after`.
    spec fn effect(&self, before: T, after: T) -> bool;

    /// Runs the hook once on `environment`.
    fn apply(&self, environment: &mut T)
        ensures
            self.effect(*old(environment), *final(environment)),
    ;
}

/// A hook made of a closure.
pub struct ClosureHook<T, F: Fn(&mut T)> {
    function: F,
    environment: core::marker::PhantomData<T>,
}

impl<T, F: Fn(&mut T)> ClosureHook<T, F> {
    /// The closure that the hook runs.
    pub closed spec fn function(self) -> F {
        self.function
    }

    #[verifier::type_invariant]
    spec fn accepts_every_environment(self) -> bool {
        forall|call: &mut T| call_requires(self.function, (call,))
    }

    pub fn new(function: F) -> (hook: Self)
        requires
            forall|call: &mut T| call_requires(function, (call,)),
        ensures
            hook.function() == function,
    {
        ClosureHook { function, environment: core::marker::PhantomData }
    }
}

impl<T: Send + Sync, F: Fn(&mut T) + Send + Sync> Hook<T> for ClosureHook<T, F> {
    open spec fn effect(&self, before: T, after: T) -> bool {
        maps(&self.function(), before, after, ())
    }

    fn apply(&self, environment: &mut T) {
        proof {
            use_type_invariant(self);
        }
        let _ = call_on(&self.function, environment);
    }
}

/// A hook as a context holds it: owned, on the heap, and free to be handed
/// to another thread.
#[verifier::reject_recursive_types(T)]
pub struct HookHandle<T> {
    pub hook: Box<dyn Hook<T>>,
}

impl<T: Send + Sync + 'static> HookHandle<T> {
    /// Whether the hook behind this handle runs `function`: a run of the hook
    /// may turn one environment into another exactly where a call of
    /// `function` may.
    pub open spec fn runs<F: Fn(&mut T)>(self, function: F) -> bool {
        forall|before: T, after: T| #[trigger]
            self.hook.effect(before, after) <==> maps(&function, before, after, ())
    }

    /// A handle on the hook that runs `function`.
    pub fn new<F>(function: F) -> (handle: Self) where F: 'static + Send + Sync + Fn(&mut T)
        requires
            forall|call: &mut T| call_requires(function, (call,)),
        ensures
            handle.runs(function),
    {
        HookHandle { hook: Box::new(ClosureHook::new(function)) }
    }
}

/// Whether one run of each of the first `n` of `hooks`, in their order, each
/// on the environment as the one before left it, may turn `before` into
/// `after`.
pub open spec fn led_by<T>(hooks: Seq<HookHandle<T>>, n: nat, before: T, after: T) -> bool
    decreases n,
{
    if n == 0 || n > hooks.len() {
        after == before
    } else {
        exists|middle: T|
            led_by(hooks, (n - 1) as nat, before, middle) && #[trigger] hooks[n - 1].hook.effect(
                middle,
                after,
            )
    }
}

/// Whether one run of each of `hooks`, in their order, each on the
/// environment as the one before left it, may turn `before` into `after`.
pub open spec fn leads<T>(hooks: Seq<HookHandle<T>>, before: T, after: T) -> bool {
    led_by(hooks, hooks.len(), before, after)
}

/// Runs every one of `hooks` once, in their order.
pub(crate) fn run_hooks<T>(hooks: &Vec<HookHandle<T>>, environment: &mut T)
    ensures
        leads(hooks@, *old(environment), *final(environment)),
{
    let mut i: usize = 0;
    while i < hooks.len()
        invariant
            i <= hooks.len(),
            led_by(hooks@, i as nat, *old(environment), *environment),
        decreases hooks.len() - i,
    {
        let ghost middle = *environment;
        hooks[i].hook.apply(environment);
        proof {
            assert(led_by(hooks@, i as nat, *old(environment), middle));
            assert(hooks@[i + 1 - 1].hook.effect(middle, *environment));
            assert(led_by(hooks@, (i + 1) as nat, *old(environment), *environment));
        }
        i += 1;
    }
}

} // verus!
