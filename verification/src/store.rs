//! What the scheme asks of a document store, and what it hears back.

use vstd::prelude::*;

verus! {

/// Collection holding pinned client identities.
pub const CLIENTS: &'static str = "clients";

/// Collection holding hashed, single-use bootstrap keys.
pub const BOOTSTRAP_KEYS: &'static str = "bootstrap_keys";

/// A collection that has to exist, with the fields it is indexed by.
#[derive(Debug)]
pub struct CollectionSpec {
    pub name: String,
    pub indexed_fields: Vec<String>,
}

/// A [`CollectionSpec`] as a mathematical value.
pub struct CollectionFields {
    pub name: Seq<char>,
    pub indexed_fields: Seq<Seq<char>>,
}

impl View for CollectionSpec {
    type V = CollectionFields;

    open spec fn view(&self) -> CollectionFields {
        CollectionFields {
            name: self.name@,
            indexed_fields: Seq::new(
                self.indexed_fields@.len(),
                |i: int| self.indexed_fields@[i]@,
            ),
        }
    }
}

/// A document to fetch, by collection and id.
#[derive(Debug)]
pub struct Get {
    pub collection: String,
    pub id: String,
}

/// A [`Get`] as a mathematical value.
pub struct GetFields {
    pub collection: Seq<char>,
    pub id: Seq<char>,
}

impl View for Get {
    type V = GetFields;

    open spec fn view(&self) -> GetFields {
        GetFields { collection: self.collection@, id: self.id@ }
    }
}

/// A document to write under a collection and id, replacing what stands there.
#[derive(Debug)]
pub struct Put<D> {
    pub collection: String,
    pub id: String,
    pub doc: D,
}

/// A [`Put`] as a mathematical value.
pub struct PutFields<D> {
    pub collection: Seq<char>,
    pub id: Seq<char>,
    pub doc: D,
}

impl<D: View> View for Put<D> {
    type V = PutFields<D::V>;

    open spec fn view(&self) -> PutFields<D::V> {
        PutFields { collection: self.collection@, id: self.id@, doc: self.doc@ }
    }
}

/// What came of fetching a document.
#[derive(Debug)]
pub enum Lookup<D> {
    Found(D),
    NotFound,
    /// The store failed, or the document does not decode; the text says what happened.
    Failed(String),
}

/// A [`Lookup`] as a mathematical value.
pub enum Fetched<D> {
    Found(D),
    NotFound,
    Failed(Seq<char>),
}

impl<D: View> View for Lookup<D> {
    type V = Fetched<D::V>;

    open spec fn view(&self) -> Fetched<D::V> {
        match self {
            Lookup::Found(d) => Fetched::Found(d@),
            Lookup::NotFound => Fetched::NotFound,
            Lookup::Failed(text) => Fetched::Failed(text@),
        }
    }
}

/// A fetch or a write is its fields, and the collections are those of the scheme.
pub proof fn request_fields<D: View>(g: Get, p: Put<D>, c: CollectionSpec)
    ensures
        g@.collection == g.collection@,
        g@.id == g.id@,
        p@.collection == p.collection@,
        p@.id == p.id@,
        p@.doc == p.doc@,
        c@.name == c.name@,
        c@.indexed_fields == c.indexed_fields@.map_values(|f: String| f@),
        CLIENTS@ == "clients"@,
        BOOTSTRAP_KEYS@ == "bootstrap_keys"@,
{
    assert(c@.indexed_fields =~= c.indexed_fields@.map_values(|f: String| f@));
}

/// What came of a fetch is told apart by its variant and what that carries.
pub proof fn lookup_fields<D: View>(l: Lookup<D>)
    ensures
        l@ is Found <==> l is Found,
        l@ is NotFound <==> l is NotFound,
        l@ is Failed <==> l is Failed,
        l matches Lookup::Found(d) ==> l@ == Fetched::Found(d@),
        l matches Lookup::Failed(text) ==> l@ == Fetched::<D::V>::Failed(text@),
{
}

} // verus!
