use vstd::prelude::*;
use crate::textmap::{texts, TextMap};

verus! {

/// How the vector index of a namespace measures distance.
#[derive(Debug, Clone, Copy, PartialEq, Eq, Structural)]
pub enum MetricKind {
    Cos,
    L2sq,
}

/// The scalar type in which the vector index stores its vectors.
#[derive(Debug, Clone, Copy, PartialEq, Eq, Structural)]
pub enum ScalarKind {
    F32,
    F16,
}

/// Failure of a registry operation.
#[derive(Debug, Clone, PartialEq, Eq)]
pub enum NamespaceError {
    AlreadyExists,
    NotFound,
    /// The store or the index of a new namespace could not be opened.
    Collaborator(String),
}

/// A tenant: a key-value store and a vector index of fixed shape.
pub struct Namespace<S, I> {
    pub db: S,
    pub vector_db: I,
    pub dimensions: usize,
    pub metric: MetricKind,
    pub scalar: ScalarKind,
}

impl<S, I> Namespace<S, I> {
    pub fn new(db: S, vector_db: I, dimensions: usize, metric: MetricKind, scalar: ScalarKind) -> (r:
        Self)
        ensures
            r.db == db,
            r.vector_db == vector_db,
            r.dimensions == dimensions,
            r.metric == metric,
            r.scalar == scalar,
    {
        Namespace { db, vector_db, dimensions, metric, scalar }
    }
}

/// Whether `ns` has the shape that a namespace was created with.
pub open spec fn has_shape<S, I>(ns: Namespace<S, I>, dimensions: usize, metric: MetricKind, scalar: ScalarKind) -> bool {
    ns.dimensions == dimensions && ns.metric == metric && ns.scalar == scalar
}

/// The namespaces of the process, by unique name.
pub struct NamespaceManager<S, I> {
    namespaces: TextMap<Namespace<S, I>>,
}

impl<S, I> NamespaceManager<S, I> {
    pub closed spec fn entries(&self) -> Map<Seq<char>, Namespace<S, I>> {
        self.namespaces@
    }

    pub closed spec fn wf(&self) -> bool {
        self.namespaces.wf()
    }

    pub fn new() -> (r: Self)
        ensures
            r.wf(),
            r.entries() == Map::<Seq<char>, Namespace<S, I>>::empty(),
    {
        NamespaceManager { namespaces: TextMap::new() }
    }

    /// Adds a namespace called `name`, with the store and index that `open` hands back.
    /// A taken name gives `AlreadyExists` and leaves the registry as it was; a failure of
    /// `open` is passed on as `Collaborator`, also leaving the registry as it was.
    pub fn create_namespace<F>(
        &mut self,
        name: &str,
        dimensions: usize,
        metric: MetricKind,
        scalar: ScalarKind,
        open: F,
    ) -> (r: Result<(), NamespaceError>) where
        F: FnOnce(&str, usize, MetricKind, ScalarKind) -> Result<(S, I), String>,

        requires
            old(self).wf(),
            open.requires((name, dimensions, metric, scalar)),
        ensures
            final(self).wf(),
            old(self).entries().contains_key(name@) ==> r == Err::<(), NamespaceError>(
                NamespaceError::AlreadyExists,
            ),
            r is Ok ==> !old(self).entries().contains_key(name@) && final(self).entries()
                == old(self).entries().insert(name@, final(self).entries()[name@]) && has_shape(
                final(self).entries()[name@],
                dimensions,
                metric,
                scalar,
            ),
            r is Ok ==> open.ensures(
                (name, dimensions, metric, scalar),
                Ok::<(S, I), String>(
                    (final(self).entries()[name@].db, final(self).entries()[name@].vector_db),
                ),
            ),
            r is Err ==> final(self).entries() == old(self).entries(),
            r matches Err(NamespaceError::AlreadyExists) ==> old(self).entries().contains_key(name@),
            r matches Err(NamespaceError::Collaborator(e)) ==> !old(self).entries().contains_key(
                name@,
            ) && open.ensures((name, dimensions, metric, scalar), Err::<(S, I), String>(e)),
            r matches Err(NamespaceError::NotFound) ==> false,
    {
        if self.namespaces.contains_key(name) {
            return Err(NamespaceError::AlreadyExists);
        }
        match open(name, dimensions, metric, scalar) {
            Ok((db, vector_db)) => {
                let ns = Namespace::new(db, vector_db, dimensions, metric, scalar);
                self.namespaces.insert(name.to_owned(), ns);
                Ok(())
            },
            Err(e) => Err(NamespaceError::Collaborator(e)),
        }
    }

    pub fn get_namespace(&self, name: &str) -> (r: Result<&Namespace<S, I>, NamespaceError>)
        requires
            self.wf(),
        ensures
            match r {
                Ok(ns) => self.entries().contains_key(name@) && *ns == self.entries()[name@],
                Err(e) => !self.entries().contains_key(name@) && e == NamespaceError::NotFound,
            },
    {
        match self.namespaces.get(name) {
            Some(ns) => Ok(ns),
            None => Err(NamespaceError::NotFound),
        }
    }

    /// Removes a namespace; its store and index are dropped with it.
    pub fn delete_namespace(&mut self, name: &str) -> (r: Result<(), NamespaceError>)
        requires
            old(self).wf(),
        ensures
            final(self).wf(),
            final(self).entries() == old(self).entries().remove(name@),
            r is Ok <==> old(self).entries().contains_key(name@),
            r matches Err(e) ==> e == NamespaceError::NotFound,
    {
        match self.namespaces.remove(name) {
            Some(_) => Ok(()),
            None => Err(NamespaceError::NotFound),
        }
    }

    /// The names of all namespaces, each once.
    pub fn list_namespaces(&self) -> (r: Vec<String>)
        requires
            self.wf(),
        ensures
            texts(r@).no_duplicates(),
            texts(r@).to_set() == self.entries().dom(),
    {
        proof {
            self.namespaces.lemma_key_order();
        }
        self.namespaces.key_list()
    }

    pub fn namespace_exists(&self, name: &str) -> (r: bool)
        requires
            self.wf(),
        ensures
            r == self.entries().contains_key(name@),
    {
        self.namespaces.contains_key(name)
    }
}

/// After a namespace is created its entry has the requested shape, a second
/// creation under the same name is refused, and after deletion the name is gone.
pub proof fn lemma_create_then_delete<S, I>(
    m: Map<Seq<char>, Namespace<S, I>>,
    name: Seq<char>,
    ns: Namespace<S, I>,
    dimensions: usize,
    metric: MetricKind,
    scalar: ScalarKind,
)
    requires
        has_shape(ns, dimensions, metric, scalar),
    ensures
        m.insert(name, ns).contains_key(name),
        has_shape(m.insert(name, ns)[name], dimensions, metric, scalar),
        !m.insert(name, ns).remove(name).contains_key(name),
{
}

} // verus!
