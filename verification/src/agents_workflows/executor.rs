//! Executor registrations, factories and the plain parts of executors.
use vstd::prelude::*;
use crate::agents_workflows::error::WorkflowError;
use crate::text::IntoText;

verus! {

/// Configuration options for an executor
pub struct ExecutorOptions {
    /// Whether to automatically yield handler return values as output
    pub auto_yield_output_handler_result: bool,
    /// Custom configuration
    pub custom_config: Option<serde_json::Value>,
}

impl Default for ExecutorOptions {
    fn default() -> (r: Self)
        ensures
            r.auto_yield_output_handler_result,
            r.custom_config is None,
    {
        ExecutorOptions { auto_yield_output_handler_result: true, custom_config: None }
    }
}

/// Protocol descriptor for an executor
#[derive(Debug)]
pub struct ProtocolDescriptor {
    pub input_types: Vec<String>,
    pub output_types: Vec<String>,
}

/// A factory that a user registers for an executor: a closure that makes a
/// new executor instance, or fails.
#[verifier::external_body]
#[verifier::reject_recursive_types(E)]
pub struct ExecutorFactory<E> {
    create: std::sync::Arc<dyn Fn() -> Result<E, WorkflowError> + Send + Sync>,
}

impl<E> ExecutorFactory<E> {
    /// Stores the user's closure behind `std::sync::Arc::new`.
    #[verifier::external_body]
    pub fn new<F>(factory: F) -> (r: Self)
        where F: Fn() -> Result<E, WorkflowError> + Send + Sync + 'static,
    {
        ExecutorFactory { create: std::sync::Arc::new(factory) }
    }

    /// Calls the user's closure; what it returns is not stated.
    #[verifier::external_body]
    pub(crate) fn create(&self) -> (r: Result<E, WorkflowError>) {
        (self.create)()
    }

    /// Calls `Arc::clone`: the copy shares the same closure.
    #[verifier::external_body]
    pub(crate) fn share(&self) -> (r: Self) {
        ExecutorFactory { create: std::sync::Arc::clone(&self.create) }
    }
}

impl<E> Clone for ExecutorFactory<E> {
    fn clone(&self) -> (r: Self) {
        self.share()
    }
}

/// Registration information for an executor
#[verifier::reject_recursive_types(E)]
pub struct ExecutorRegistration<E> {
    pub id: String,
    pub executor_type: String,
    pub factory: ExecutorFactory<E>,
    pub supports_concurrent: bool,
    pub supports_resetting: bool,
}

/// A registration as the contracts see it.
pub struct RegistrationView {
    pub id: Seq<char>,
    pub executor_type: Seq<char>,
    pub supports_concurrent: bool,
    pub supports_resetting: bool,
}

impl<E> View for ExecutorRegistration<E> {
    type V = RegistrationView;

    open spec fn view(&self) -> RegistrationView {
        RegistrationView {
            id: self.id@,
            executor_type: self.executor_type@,
            supports_concurrent: self.supports_concurrent,
            supports_resetting: self.supports_resetting,
        }
    }
}

impl<E> Clone for ExecutorRegistration<E> {
    fn clone(&self) -> (r: Self)
        ensures
            r@ == self@,
    {
        ExecutorRegistration {
            id: self.id.clone(),
            executor_type: self.executor_type.clone(),
            factory: self.factory.share(),
            supports_concurrent: self.supports_concurrent,
            supports_resetting: self.supports_resetting,
        }
    }
}

impl<E> ExecutorRegistration<E> {
    pub fn new<F>(id: String, executor_type: String, factory: F) -> (r: Self)
        where F: Fn() -> Result<E, WorkflowError> + Send + Sync + 'static,
        ensures
            r@ == (RegistrationView {
                id: id@,
                executor_type: executor_type@,
                supports_concurrent: false,
                supports_resetting: true,
            }),
    {
        ExecutorRegistration {
            id,
            executor_type,
            factory: ExecutorFactory::new(factory),
            supports_concurrent: false,
            supports_resetting: true,
        }
    }

    pub fn with_concurrent_support(self, supports: bool) -> (r: Self)
        ensures
            r@ == (RegistrationView { supports_concurrent: supports, ..self@ }),
    {
        let mut s = self;
        s.supports_concurrent = supports;
        s
    }

    pub fn with_reset_support(self, supports: bool) -> (r: Self)
        ensures
            r@ == (RegistrationView { supports_resetting: supports, ..self@ }),
    {
        let mut s = self;
        s.supports_resetting = supports;
        s
    }

    /// Makes a new executor instance with the registered factory.
    pub fn create_instance(&self) -> (r: Result<E, WorkflowError>) {
        self.factory.create()
    }
}

} // verus!

verus! {

/// The registrations of a table of (executor id, registration) entries, by id.
pub open spec fn registry_map(s: Seq<(Seq<char>, RegistrationView)>) -> Map<Seq<char>, RegistrationView>
    decreases s.len(),
{
    if s.len() == 0 {
        Map::empty()
    } else {
        registry_map(s.drop_last()).insert(s.last().0, s.last().1)
    }
}

/// A registration table is well formed when each entry is keyed by its own
/// registration's id and no id occurs twice.
pub open spec fn registry_wf(s: Seq<(Seq<char>, RegistrationView)>) -> bool {
    &&& forall|i: int| 0 <= i < s.len() ==> (#[trigger] s[i]).0 == s[i].1.id
    &&& forall|i: int, j: int| 0 <= i < s.len() && 0 <= j < s.len() && i != j ==> (#[trigger] s[i]).0 != (#[trigger] s[j]).0
}

/// The view of a table of registrations.
pub open spec fn registry_view<E>(s: Seq<(String, ExecutorRegistration<E>)>) -> Seq<(Seq<char>, RegistrationView)> {
    s.map_values(|p: (String, ExecutorRegistration<E>)| (p.0@, p.1@))
}

/// An id is registered exactly when some entry carries it.
pub proof fn lemma_registry_dom(s: Seq<(Seq<char>, RegistrationView)>, k: Seq<char>)
    ensures
        registry_map(s).contains_key(k) == (exists|i: int| 0 <= i < s.len() && (#[trigger] s[i]).0 == k),
    decreases s.len(),
{
    if s.len() > 0 {
        lemma_registry_dom(s.drop_last(), k);
        if registry_map(s.drop_last()).contains_key(k) {
            let i = choose|i: int| 0 <= i < s.drop_last().len() && (#[trigger] s.drop_last()[i]).0 == k;
            assert(s[i] == s.drop_last()[i]);
        }
        if exists|i: int| 0 <= i < s.len() && (#[trigger] s[i]).0 == k {
            let i = choose|i: int| 0 <= i < s.len() && (#[trigger] s[i]).0 == k;
            if i < s.len() - 1 {
                assert(s.drop_last()[i] == s[i]);
            }
        }
    }
}

/// In a well-formed table, the registration found for an id is the one of
/// the entry that carries it.
pub proof fn lemma_registry_at(s: Seq<(Seq<char>, RegistrationView)>, i: int)
    requires
        registry_wf(s),
        0 <= i < s.len(),
    ensures
        registry_map(s).contains_key(s[i].0),
        registry_map(s)[s[i].0] == s[i].1,
    decreases s.len(),
{
    if i < s.len() - 1 {
        let d = s.drop_last();
        assert(d[i] == s[i]);
        assert forall|a: int, b: int| 0 <= a < d.len() && 0 <= b < d.len() && a != b implies (#[trigger] d[a]).0 != (#[trigger] d[b]).0 by {
            assert(d[a] == s[a] && d[b] == s[b]);
        }
        assert forall|a: int| 0 <= a < d.len() implies (#[trigger] d[a]).0 == d[a].1.id by {
            assert(d[a] == s[a]);
        }
        lemma_registry_at(d, i);
        assert(s[i].0 != s.last().0);
    }
}

/// Keys of a well-formed table map to registrations with the same id.
pub proof fn lemma_registry_ids(s: Seq<(Seq<char>, RegistrationView)>)
    requires
        registry_wf(s),
    ensures
        forall|k: Seq<char>| #[trigger] registry_map(s).contains_key(k) ==> registry_map(s)[k].id == k,
{
    assert forall|k: Seq<char>| #[trigger] registry_map(s).contains_key(k) implies registry_map(s)[k].id == k by {
        lemma_registry_dom(s, k);
        let i = choose|i: int| 0 <= i < s.len() && (#[trigger] s[i]).0 == k;
        lemma_registry_at(s, i);
    }
}

/// Looks up the entry of `id` in a table of registrations.
pub fn find_registration<E>(regs: &Vec<(String, ExecutorRegistration<E>)>, id: &str) -> (r: Option<usize>)
    ensures
        match r {
            Some(i) => i < regs@.len() && regs@[i as int].0@ == id@,
            None => !registry_map(registry_view(regs@)).contains_key(id@),
        },
{
    let mut i: usize = 0;
    while i < regs.len()
        invariant
            i <= regs@.len(),
            forall|j: int| 0 <= j < i ==> (#[trigger] regs@[j]).0@ != id@,
        decreases regs@.len() - i,
    {
        if crate::text::str_eq(regs[i].0.as_str(), id) {
            return Some(i);
        }
        i = i + 1;
    }
    proof {
        lemma_registry_dom(registry_view(regs@), id@);
        assert forall|j: int| 0 <= j < registry_view(regs@).len() implies (#[trigger] registry_view(regs@)[j]).0 != id@ by {
            assert(regs@[j].0@ != id@);
        }
    }
    None
}

} // verus!

verus! {

/// The error a user's executor function fails with: any error value that
/// can be sent between threads.
#[verifier::external_body]
pub struct FunctionError {
    inner: Box<dyn std::error::Error + Send + Sync>,
}

impl FunctionError {
    /// An error carrying the message `message`, through
    /// `From<String> for Box<dyn Error + Send + Sync>`.
    #[verifier::external_body]
    pub fn from_message(message: String) -> (r: Self) {
        FunctionError { inner: message.into() }
    }

    /// The message of the error, as its `Display` writes it; not stated.
    #[verifier::external_body]
    pub fn message(&self) -> (r: String) {
        self.inner.to_string()
    }
}

/// The function a user gives a function executor.
#[verifier::external_body]
#[verifier::reject_recursive_types(T)]
#[verifier::reject_recursive_types(R)]
pub struct ExecutorFunction<T, R> {
    f: std::sync::Arc<dyn Fn(T) -> Result<R, FunctionError> + Send + Sync>,
}

impl<T, R> ExecutorFunction<T, R> {
    /// Stores the user's function behind `std::sync::Arc::new`.
    #[verifier::external_body]
    pub fn new<F>(function: F) -> (r: Self)
        where F: Fn(T) -> Result<R, FunctionError> + Send + Sync + 'static,
    {
        ExecutorFunction { f: std::sync::Arc::new(function) }
    }

    /// Calls the user's function; what it returns is not stated.
    #[verifier::external_body]
    pub fn call(&self, input: T) -> (r: Result<R, FunctionError>) {
        (self.f)(input)
    }
}

/// Function-based executor for simple processing
#[verifier::reject_recursive_types(T)]
#[verifier::reject_recursive_types(R)]
pub struct FunctionExecutor<T, R> {
    id: String,
    function: ExecutorFunction<T, R>,
    options: ExecutorOptions,
}

impl<T, R> FunctionExecutor<T, R> {
    pub fn new<F>(id: String, function: F) -> (r: Self)
        where F: Fn(T) -> Result<R, FunctionError> + Send + Sync + 'static,
        ensures
            r.id() == id@,
            r.options().auto_yield_output_handler_result,
            r.options().custom_config is None,
    {
        FunctionExecutor {
            id,
            function: ExecutorFunction::new(function),
            options: ExecutorOptions { auto_yield_output_handler_result: true, custom_config: None },
        }
    }

    pub fn with_options(self, options: ExecutorOptions) -> (r: Self)
        ensures
            r.id() == self.id(),
            r.options() == options,
            r.stored_function() == self.stored_function(),
    {
        let mut s = self;
        s.options = options;
        s
    }

    /// The id of the executor.
    pub closed spec fn id(&self) -> Seq<char> {
        self.id@
    }

    /// The options of the executor.
    pub closed spec fn options(&self) -> ExecutorOptions {
        self.options
    }

    /// The user's function that the executor holds.
    pub closed spec fn stored_function(&self) -> ExecutorFunction<T, R> {
        self.function
    }

    /// Unique identifier for the executor
    pub fn executor_id(&self) -> (r: &str)
        ensures
            r@ == self.id(),
    {
        self.id.as_str()
    }

    /// Get executor options
    pub fn executor_options(&self) -> (r: &ExecutorOptions)
        ensures
            *r == self.options(),
    {
        &self.options
    }

    /// The user's function.
    pub fn function(&self) -> (r: &ExecutorFunction<T, R>)
        ensures
            *r == self.stored_function(),
    {
        &self.function
    }
}

} // verus!
