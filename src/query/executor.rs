use vstd::prelude::*;
use crate::auth::manager::{holds, AuthManager};
use crate::gate::{admits, held_after, Gate, GateError, PoolKind};
use crate::namespace::{has_shape, MetricKind, Namespace, NamespaceError, NamespaceManager, ScalarKind};
use crate::query::parser::{parse_result, ParseError, QueryParser, QueryType};
use crate::textmap::{same_text, texts};

verus! {

/// The functions that a script may call. The set is closed: scripts cannot add to it.
#[derive(Debug, Clone, Copy, PartialEq, Eq, Structural)]
pub enum HostFunction {
    CreateNamespace,
    DeleteNamespace,
    ListNamespaces,
    Select,
    Insert,
    Update,
    Delete,
    GenerateEmbedding,
    LlmQuery,
    UploadFile,
    RetrieveFile,
    SimilaritySearch,
    InstallPackage,
    ListPackages,
}

/// Why a call through the bridge failed.
#[derive(Debug, Clone, PartialEq, Eq)]
pub enum BridgeError {
    /// The caller lacks the capability; comes before any other failure of the call.
    Unauthorized,
    NotFound,
    AlreadyExists,
    ResourceExhausted,
    /// An argument has the wrong count or an unknown value.
    InvalidArgument,
    /// The statement names no operation on a store.
    Unsupported,
    /// The statement could not be read.
    Syntax(ParseError),
    /// A collaborator failed; the text says which operation.
    Collaborator(String),
}

/// The capability that a host function requires; it is also the function's name in scripts.
pub open spec fn capability_of(f: HostFunction) -> Seq<char> {
    match f {
        HostFunction::CreateNamespace => "create_namespace"@,
        HostFunction::DeleteNamespace => "delete_namespace"@,
        HostFunction::ListNamespaces => "list_namespaces"@,
        HostFunction::Select => "select"@,
        HostFunction::Insert => "insert"@,
        HostFunction::Update => "update"@,
        HostFunction::Delete => "delete"@,
        HostFunction::GenerateEmbedding => "generate_embedding"@,
        HostFunction::LlmQuery => "llm_query"@,
        HostFunction::UploadFile => "upload_file"@,
        HostFunction::RetrieveFile => "retrieve_file"@,
        HostFunction::SimilaritySearch => "similarity_search"@,
        HostFunction::InstallPackage => "install_package"@,
        HostFunction::ListPackages => "list_packages"@,
    }
}

/// The pool that a host function must be admitted to, if any.
pub open spec fn pool_of(f: HostFunction) -> Option<PoolKind> {
    match f {
        HostFunction::GenerateEmbedding => Some(PoolKind::Embedding),
        HostFunction::LlmQuery => Some(PoolKind::Inference),
        _ => None,
    }
}

/// Whether a host function works on the store or index of a named namespace.
pub open spec fn reads_namespace(f: HostFunction) -> bool {
    match f {
        HostFunction::Select | HostFunction::Insert | HostFunction::Update | HostFunction::Delete
        | HostFunction::SimilaritySearch => true,
        _ => false,
    }
}

/// The metric that a script names.
pub open spec fn metric_named(s: Seq<char>) -> Option<MetricKind> {
    if s == "cosine"@ {
        Some(MetricKind::Cos)
    } else if s == "euclidean"@ {
        Some(MetricKind::L2sq)
    } else {
        None
    }
}

/// The scalar type that a script names.
pub open spec fn scalar_named(s: Seq<char>) -> Option<ScalarKind> {
    if s == "f32"@ {
        Some(ScalarKind::F32)
    } else if s == "f16"@ {
        Some(ScalarKind::F16)
    } else {
        None
    }
}

impl HostFunction {
    pub fn name(&self) -> (r: &'static str)
        ensures
            r@ == capability_of(*self),
    {
        match self {
            HostFunction::CreateNamespace => "create_namespace",
            HostFunction::DeleteNamespace => "delete_namespace",
            HostFunction::ListNamespaces => "list_namespaces",
            HostFunction::Select => "select",
            HostFunction::Insert => "insert",
            HostFunction::Update => "update",
            HostFunction::Delete => "delete",
            HostFunction::GenerateEmbedding => "generate_embedding",
            HostFunction::LlmQuery => "llm_query",
            HostFunction::UploadFile => "upload_file",
            HostFunction::RetrieveFile => "retrieve_file",
            HostFunction::SimilaritySearch => "similarity_search",
            HostFunction::InstallPackage => "install_package",
            HostFunction::ListPackages => "list_packages",
        }
    }

    pub fn pool(&self) -> (r: Option<PoolKind>)
        ensures
            r == pool_of(*self),
    {
        match self {
            HostFunction::GenerateEmbedding => Some(PoolKind::Embedding),
            HostFunction::LlmQuery => Some(PoolKind::Inference),
            _ => None,
        }
    }

    pub fn reads_namespace(&self) -> (r: bool)
        ensures
            r == reads_namespace(*self),
    {
        match self {
            HostFunction::Select | HostFunction::Insert | HostFunction::Update
            | HostFunction::Delete | HostFunction::SimilaritySearch => true,
            _ => false,
        }
    }
}

pub fn parse_metric(s: &str) -> (r: Result<MetricKind, BridgeError>)
    ensures
        match metric_named(s@) {
            Some(m) => r == Ok::<MetricKind, BridgeError>(m),
            None => r == Err::<MetricKind, BridgeError>(BridgeError::InvalidArgument),
        },
{
    if same_text(s, "cosine") {
        Ok(MetricKind::Cos)
    } else if same_text(s, "euclidean") {
        Ok(MetricKind::L2sq)
    } else {
        Err(BridgeError::InvalidArgument)
    }
}

pub fn parse_scalar(s: &str) -> (r: Result<ScalarKind, BridgeError>)
    ensures
        match scalar_named(s@) {
            Some(k) => r == Ok::<ScalarKind, BridgeError>(k),
            None => r == Err::<ScalarKind, BridgeError>(BridgeError::InvalidArgument),
        },
{
    if same_text(s, "f32") {
        Ok(ScalarKind::F32)
    } else if same_text(s, "f16") {
        Ok(ScalarKind::F16)
    } else {
        Err(BridgeError::InvalidArgument)
    }
}

/// A key-value operation that a statement asks of a namespace's store.
#[derive(Debug, Clone, PartialEq, Eq)]
pub enum StoreOp {
    Get { key: String },
    Put { key: String, value: String },
    Remove { key: String },
}

/// An authorized statement on an existing namespace, for the store to carry out.
#[derive(Debug, Clone, PartialEq, Eq)]
pub struct StoreRequest {
    pub namespace: String,
    pub op: StoreOp,
}

/// The host function behind a statement kind that works on a store.
pub open spec fn store_function(t: QueryType) -> Option<HostFunction> {
    match t {
        QueryType::Select => Some(HostFunction::Select),
        QueryType::Insert => Some(HostFunction::Insert),
        QueryType::Update => Some(HostFunction::Update),
        QueryType::Delete => Some(HostFunction::Delete),
        _ => None,
    }
}

/// The number of arguments a store statement takes: namespace and key, and a value to write.
pub open spec fn store_arity(f: HostFunction) -> nat {
    match f {
        HostFunction::Insert | HostFunction::Update => 3,
        _ => 2,
    }
}

/// Whether `op` is what host function `f` does with `args` (namespace, key[, value]).
pub open spec fn op_matches(op: StoreOp, f: HostFunction, args: Seq<Seq<char>>) -> bool {
    match op {
        StoreOp::Get { key } => f == HostFunction::Select && key@ == args[1],
        StoreOp::Put { key, value } => (f == HostFunction::Insert || f == HostFunction::Update)
            && key@ == args[1] && value@ == args[2],
        StoreOp::Remove { key } => f == HostFunction::Delete && key@ == args[1],
    }
}

/// The pool slot held by one admitted call, if it needed one.
pub struct Admission {
    pool: Option<PoolKind>,
}

impl Admission {
    pub closed spec fn pool_spec(&self) -> Option<PoolKind> {
        self.pool
    }

    pub fn pool(&self) -> (r: Option<PoolKind>)
        ensures
            r == self.pool_spec(),
    {
        self.pool
    }
}

/// The core of query execution: the namespaces, the grants and the admission pools shared by all calls.
pub struct QueryExecutor<S, I> {
    namespace_manager: NamespaceManager<S, I>,
    auth_manager: AuthManager,
    gate: Gate,
}

impl<S, I> QueryExecutor<S, I> {
    pub closed spec fn namespaces(&self) -> Map<Seq<char>, Namespace<S, I>> {
        self.namespace_manager.entries()
    }

    pub closed spec fn grants(&self) -> Map<Seq<char>, Set<Seq<char>>> {
        self.auth_manager.grants()
    }

    pub closed spec fn gate(&self) -> Gate {
        self.gate
    }

    pub closed spec fn wf(&self) -> bool {
        self.namespace_manager.wf() && self.auth_manager.wf() && self.gate.wf()
    }

    pub fn new(
        namespace_manager: NamespaceManager<S, I>,
        auth_manager: AuthManager,
        max_concurrent_llm: usize,
        max_concurrent_embedding: usize,
    ) -> (r: Self)
        requires
            namespace_manager.wf(),
            auth_manager.wf(),
        ensures
            r.wf(),
            r.namespaces() == namespace_manager.entries(),
            r.grants() == auth_manager.grants(),
            r.gate().pool(PoolKind::Inference).capacity_spec() == max_concurrent_llm,
            r.gate().pool(PoolKind::Embedding).capacity_spec() == max_concurrent_embedding,
            r.gate().pool(PoolKind::Inference).in_flight_spec() == 0,
            r.gate().pool(PoolKind::Embedding).in_flight_spec() == 0,
    {
        QueryExecutor {
            namespace_manager,
            auth_manager,
            gate: Gate::new(max_concurrent_llm, max_concurrent_embedding),
        }
    }

    /// In every valid state, and so after every `begin_call` and `end_call`, no pool has
    /// more calls admitted than the capacity it was built with.
    pub proof fn lemma_slots_within_capacity(&self)
        requires
            self.wf(),
        ensures
            forall|k: PoolKind|
                #[trigger] self.gate().pool(k).in_flight_spec() <= self.gate().pool(k).capacity_spec(),
    {
        self.gate.lemma_within_capacity();
    }

    /// Slots of `kind` currently taken.
    pub fn in_flight(&self, kind: PoolKind) -> (r: usize)
        ensures
            r == self.gate().pool(kind).in_flight_spec(),
    {
        self.gate.in_flight(kind)
    }

    pub fn authorize(&self, user_id: &str, f: HostFunction) -> (r: Result<(), BridgeError>)
        requires
            self.wf(),
        ensures
            r is Ok <==> holds(self.grants(), user_id@, capability_of(f)),
            r matches Err(e) ==> e == BridgeError::Unauthorized,
    {
        if self.auth_manager.is_authorized(user_id, f.name()) {
            Ok(())
        } else {
            Err(BridgeError::Unauthorized)
        }
    }

    /// Admits one call of `f` by `user_id`: checks the capability first, then that
    /// the namespace it reads exists, then takes a slot in its pool if it needs one.
    pub fn begin_call(&mut self, user_id: &str, f: HostFunction, namespace: &str) -> (r: Result<
        Admission,
        BridgeError,
    >)
        requires
            old(self).wf(),
        ensures
            final(self).wf(),
            final(self).namespaces() == old(self).namespaces(),
            final(self).grants() == old(self).grants(),
            !holds(old(self).grants(), user_id@, capability_of(f)) ==> r
                == Err::<Admission, BridgeError>(BridgeError::Unauthorized),
            holds(old(self).grants(), user_id@, capability_of(f)) && reads_namespace(f)
                && !old(self).namespaces().contains_key(namespace@) ==> r == Err::<
                Admission,
                BridgeError,
            >(BridgeError::NotFound),
            holds(old(self).grants(), user_id@, capability_of(f)) && (reads_namespace(f)
                ==> old(self).namespaces().contains_key(namespace@)) ==> match pool_of(f) {
                None => r is Ok,
                Some(k) => r is Ok == admits(
                    old(self).gate().pool(k).capacity_spec(),
                    old(self).gate().pool(k).in_flight_spec(),
                ) && (r is Err ==> r == Err::<Admission, BridgeError>(
                    BridgeError::ResourceExhausted,
                )),
            },
            r matches Ok(a) ==> a.pool_spec() == pool_of(f),
            match (r, pool_of(f)) {
                (Ok(_), Some(k)) => final(self).gate().pool(k).in_flight_spec() == held_after(
                    old(self).gate().pool(k).capacity_spec(),
                    old(self).gate().pool(k).in_flight_spec(),
                ) && final(self).gate().pool(k).capacity_spec() == old(self).gate().pool(
                    k,
                ).capacity_spec() && forall|j: PoolKind|
                    j != k ==> final(self).gate().pool(j) == old(self).gate().pool(j),
                _ => final(self).gate() == old(self).gate(),
            },
    {
        self.authorize(user_id, f)?;
        if f.reads_namespace() && !self.namespace_manager.namespace_exists(namespace) {
            return Err(BridgeError::NotFound);
        }
        match f.pool() {
            None => Ok(Admission { pool: None }),
            Some(k) => match self.gate.try_acquire(k) {
                Ok(()) => Ok(Admission { pool: Some(k) }),
                Err(GateError::ResourceExhausted) => Err(BridgeError::ResourceExhausted),
            },
        }
    }

    /// Ends an admitted call, whatever its outcome: the slot it held is given back.
    pub fn end_call(&mut self, admission: Admission)
        requires
            old(self).wf(),
            admission.pool_spec() matches Some(k) ==> old(self).gate().pool(k).in_flight_spec()
                > 0,
        ensures
            final(self).wf(),
            final(self).namespaces() == old(self).namespaces(),
            final(self).grants() == old(self).grants(),
            match admission.pool_spec() {
                Some(k) => final(self).gate().pool(k).in_flight_spec() == old(self).gate().pool(
                    k,
                ).in_flight_spec() - 1 && final(self).gate().pool(k).capacity_spec()
                    == old(self).gate().pool(k).capacity_spec() && forall|j: PoolKind|
                    j != k ==> final(self).gate().pool(j) == old(self).gate().pool(j),
                None => final(self).gate() == old(self).gate(),
            },
    {
        match admission.pool {
            Some(k) => self.gate.release(k),
            None => {},
        }
    }

    /// The namespace called `name`, for the collaborator calls of an admitted call.
    pub fn namespace(&self, name: &str) -> (r: Result<&Namespace<S, I>, BridgeError>)
        requires
            self.wf(),
        ensures
            match r {
                Ok(ns) => self.namespaces().contains_key(name@) && *ns == self.namespaces()[name@],
                Err(e) => !self.namespaces().contains_key(name@) && e == BridgeError::NotFound,
            },
    {
        match self.namespace_manager.get_namespace(name) {
            Ok(ns) => Ok(ns),
            Err(_) => Err(BridgeError::NotFound),
        }
    }

    /// Creates a namespace for `user_id`; `metric` and `scalar` are named as in scripts.
    pub fn create_namespace<F>(
        &mut self,
        user_id: &str,
        name: &str,
        dimensions: usize,
        metric: &str,
        scalar: &str,
        open: F,
    ) -> (r: Result<(), BridgeError>) where
        F: FnOnce(&str, usize, MetricKind, ScalarKind) -> Result<(S, I), String>,

        requires
            old(self).wf(),
            forall|m: MetricKind, k: ScalarKind| open.requires((name, dimensions, m, k)),
        ensures
            final(self).wf(),
            final(self).grants() == old(self).grants(),
            final(self).gate() == old(self).gate(),
            !holds(old(self).grants(), user_id@, capability_of(HostFunction::CreateNamespace))
                ==> r == Err::<(), BridgeError>(BridgeError::Unauthorized),
            holds(old(self).grants(), user_id@, capability_of(HostFunction::CreateNamespace)) && (
            metric_named(metric@) is None || scalar_named(scalar@) is None) ==> r == Err::<
                (),
                BridgeError,
            >(BridgeError::InvalidArgument),
            holds(old(self).grants(), user_id@, capability_of(HostFunction::CreateNamespace))
                && metric_named(metric@) is Some && scalar_named(scalar@) is Some
                && old(self).namespaces().contains_key(name@) ==> r == Err::<(), BridgeError>(
                BridgeError::AlreadyExists,
            ),
            r is Ok ==> !old(self).namespaces().contains_key(name@) && final(self).namespaces()
                == old(self).namespaces().insert(name@, final(self).namespaces()[name@])
                && has_shape(
                final(self).namespaces()[name@],
                dimensions,
                metric_named(metric@)->Some_0,
                scalar_named(scalar@)->Some_0,
            ),
            r is Ok ==> open.ensures(
                (name, dimensions, metric_named(metric@)->Some_0, scalar_named(scalar@)->Some_0),
                Ok::<(S, I), String>(
                    (final(self).namespaces()[name@].db, final(self).namespaces()[name@].vector_db),
                ),
            ),
            r is Err ==> final(self).namespaces() == old(self).namespaces(),
            r matches Err(BridgeError::AlreadyExists) ==> old(self).namespaces().contains_key(
                name@,
            ),
            r matches Err(BridgeError::Collaborator(e)) ==> !old(self).namespaces().contains_key(
                name@,
            ) && open.ensures(
                (name, dimensions, metric_named(metric@)->Some_0, scalar_named(scalar@)->Some_0),
                Err::<(S, I), String>(e),
            ),
            r == Err::<(), BridgeError>(BridgeError::Unauthorized) ==> !holds(
                old(self).grants(),
                user_id@,
                capability_of(HostFunction::CreateNamespace),
            ),
            r == Err::<(), BridgeError>(BridgeError::InvalidArgument) ==> metric_named(metric@) is None
                || scalar_named(scalar@) is None,
            r matches Err(e) ==> (e == BridgeError::Unauthorized || e == BridgeError::InvalidArgument
                || e == BridgeError::AlreadyExists || e is Collaborator),
    {
        self.authorize(user_id, HostFunction::CreateNamespace)?;
        let m = parse_metric(metric)?;
        let k = parse_scalar(scalar)?;
        match self.namespace_manager.create_namespace(name, dimensions, m, k, open) {
            Ok(()) => Ok(()),
            Err(NamespaceError::AlreadyExists) => Err(BridgeError::AlreadyExists),
            Err(NamespaceError::NotFound) => Err(BridgeError::NotFound),
            Err(NamespaceError::Collaborator(e)) => Err(BridgeError::Collaborator(e)),
        }
    }

    pub fn delete_namespace(&mut self, user_id: &str, name: &str) -> (r: Result<(), BridgeError>)
        requires
            old(self).wf(),
        ensures
            final(self).wf(),
            final(self).grants() == old(self).grants(),
            final(self).gate() == old(self).gate(),
            !holds(old(self).grants(), user_id@, capability_of(HostFunction::DeleteNamespace))
                ==> r == Err::<(), BridgeError>(BridgeError::Unauthorized)
                && final(self).namespaces() == old(self).namespaces(),
            holds(old(self).grants(), user_id@, capability_of(HostFunction::DeleteNamespace))
                ==> final(self).namespaces() == old(self).namespaces().remove(name@) && (r is Ok
                <==> old(self).namespaces().contains_key(name@)) && (r is Err ==> r == Err::<
                (),
                BridgeError,
            >(BridgeError::NotFound)),
    {
        self.authorize(user_id, HostFunction::DeleteNamespace)?;
        match self.namespace_manager.delete_namespace(name) {
            Ok(()) => Ok(()),
            Err(_) => Err(BridgeError::NotFound),
        }
    }

    pub fn list_namespaces(&self, user_id: &str) -> (r: Result<Vec<String>, BridgeError>)
        requires
            self.wf(),
        ensures
            !holds(self.grants(), user_id@, capability_of(HostFunction::ListNamespaces)) ==> r
                == Err::<Vec<String>, BridgeError>(BridgeError::Unauthorized),
            holds(self.grants(), user_id@, capability_of(HostFunction::ListNamespaces)) ==> (r
                matches Ok(v) && texts(v@).no_duplicates() && texts(v@).to_set()
                == self.namespaces().dom()),
    {
        self.authorize(user_id, HostFunction::ListNamespaces)?;
        Ok(self.namespace_manager.list_namespaces())
    }

    /// Reads a store statement (`select ns key`, `insert ns key value`, `update ns key value`,
    /// `delete ns key`) and checks it for `user_id`: the capability first, then the
    /// argument count, then that the namespace exists.
    pub fn plan_statement(&self, query: &str, user_id: &str) -> (r: Result<StoreRequest, BridgeError>)
        requires
            self.wf(),
        ensures
            match parse_result(query@) {
                Err(e) => r == Err::<StoreRequest, BridgeError>(BridgeError::Syntax(e)),
                Ok((t, args)) => match store_function(t) {
                    None => r == Err::<StoreRequest, BridgeError>(BridgeError::Unsupported),
                    Some(f) => if !holds(self.grants(), user_id@, capability_of(f)) {
                        r == Err::<StoreRequest, BridgeError>(BridgeError::Unauthorized)
                    } else if args.len() != store_arity(f) {
                        r == Err::<StoreRequest, BridgeError>(BridgeError::InvalidArgument)
                    } else if !self.namespaces().contains_key(args[0]) {
                        r == Err::<StoreRequest, BridgeError>(BridgeError::NotFound)
                    } else {
                        (r matches Ok(req) && req.namespace@ == args[0] && op_matches(
                            req.op,
                            f,
                            args,
                        ))
                    },
                },
            },
    {
        let (t, args) = match QueryParser::parse(query) {
            Ok(p) => p,
            Err(e) => return Err(BridgeError::Syntax(e)),
        };
        let f = match t {
            QueryType::Select => HostFunction::Select,
            QueryType::Insert => HostFunction::Insert,
            QueryType::Update => HostFunction::Update,
            QueryType::Delete => HostFunction::Delete,
            _ => return Err(BridgeError::Unsupported),
        };
        self.authorize(user_id, f)?;
        let arity: usize = match f {
            HostFunction::Insert | HostFunction::Update => 3,
            _ => 2,
        };
        if args.len() != arity {
            return Err(BridgeError::InvalidArgument);
        }
        let ghost all = texts(args@);
        assert(all[0] == args@[0]@);
        assert(all[1] == args@[1]@);
        if !self.namespace_manager.namespace_exists(args[0].as_str()) {
            return Err(BridgeError::NotFound);
        }
        let namespace = args[0].clone();
        let key = args[1].clone();
        let op = match f {
            HostFunction::Select => StoreOp::Get { key },
            HostFunction::Delete => StoreOp::Remove { key },
            _ => {
                assert(all[2] == args@[2]@);
                StoreOp::Put { key, value: args[2].clone() }
            },
        };
        Ok(StoreRequest { namespace, op })
    }
}

} // verus!
