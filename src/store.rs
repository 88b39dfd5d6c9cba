//! An in-memory two-table store of url records and page records, with the
//! address of each url record unique.
use vstd::prelude::*;

verus! {

/// The table a record lives in.
#[derive(Debug, Clone, Copy, PartialEq, Eq, Structural)]
pub enum Table {
    Urls,
    Pages,
}

/// Identifier of a stored record: its table and a key unique in the store.
#[derive(Debug, Clone, Copy, PartialEq, Eq, Structural)]
pub struct RecordId {
    pub table: Table,
    pub key: u64,
}

/// What a create hands back: the identifier given to the new record.
#[derive(Debug, Clone, Copy, PartialEq, Eq, Structural)]
pub struct Record {
    pub id: RecordId,
}

/// A crawled address; `id` is absent until the record is stored.
#[derive(Debug)]
pub struct Url {
    pub id: Option<RecordId>,
    pub address: String,
}

/// The transformed content of a page and the url record it belongs to.
#[derive(Debug)]
pub struct Page {
    pub id: Option<RecordId>,
    pub content: String,
    pub url: RecordId,
}

/// Why a store operation did not happen.
#[derive(Debug, Clone, Copy, PartialEq, Eq, Structural)]
pub enum StoreError {
    /// A url record with that address exists already.
    DuplicateAddress,
    /// The identifier names no stored url record.
    UnresolvedUrl,
    /// Every key has been handed out.
    KeysExhausted,
}

/// `addrs` with `a` added unless it is there already: what a create or an
/// ensure does to the addresses of a store.
pub open spec fn with_address(addrs: Seq<Seq<char>>, a: Seq<char>) -> Seq<Seq<char>> {
    if addrs.contains(a) {
        addrs
    } else {
        addrs.push(a)
    }
}

/// How many entries of `addrs` equal `a`.
pub open spec fn address_count(addrs: Seq<Seq<char>>, a: Seq<char>) -> nat
    decreases addrs.len(),
{
    if addrs.len() == 0 {
        0
    } else {
        address_count(addrs.drop_last(), a) + if addrs.last() == a {
            1nat
        } else {
            0nat
        }
    }
}

/// No address occurs twice.
pub open spec fn addresses_unique(addrs: Seq<Seq<char>>) -> bool {
    forall|i: int, j: int|
        0 <= i < addrs.len() && 0 <= j < addrs.len() && i != j ==> addrs[i] != addrs[j]
}

/// The id that a stored url record at key `k` carries.
pub open spec fn url_id(k: u64) -> RecordId {
    RecordId { table: Table::Urls, key: k }
}

/// The id that a stored page record at key `k` carries.
pub open spec fn page_id(k: u64) -> RecordId {
    RecordId { table: Table::Pages, key: k }
}

/// An address that is absent is counted zero times.
pub proof fn lemma_count_absent(addrs: Seq<Seq<char>>, a: Seq<char>)
    requires
        !addrs.contains(a),
    ensures
        address_count(addrs, a) == 0,
    decreases addrs.len(),
{
    if addrs.len() > 0 {
        assert forall|x: Seq<char>| addrs.drop_last().contains(x) implies addrs.contains(x) by {
            let k = choose|k: int| 0 <= k < addrs.drop_last().len() && addrs.drop_last()[k] == x;
            assert(addrs[k] == x);
        }
        assert(addrs[addrs.len() - 1] == addrs.last());
        lemma_count_absent(addrs.drop_last(), a);
    }
}

/// In a list without repeats, an address that is present is counted once.
pub proof fn lemma_count_unique(addrs: Seq<Seq<char>>, a: Seq<char>)
    requires
        addresses_unique(addrs),
        addrs.contains(a),
    ensures
        address_count(addrs, a) == 1,
    decreases addrs.len(),
{
    let init = addrs.drop_last();
    assert(addresses_unique(init)) by {
        assert forall|i: int, j: int| 0 <= i < init.len() && 0 <= j < init.len() && i != j implies init[i] != init[j] by {
            assert(init[i] == addrs[i] && init[j] == addrs[j]);
        }
    }
    if addrs.last() == a {
        assert forall|x: Seq<char>| init.contains(x) implies x != a by {
            let k = choose|k: int| 0 <= k < init.len() && init[k] == x;
            assert(addrs[k] == x);
            assert(addrs[addrs.len() - 1] == a);
        }
        lemma_count_absent(init, a);
    } else {
        let k = choose|k: int| 0 <= k < addrs.len() && addrs[k] == a;
        assert(k != addrs.len() - 1);
        assert(init[k] == a);
        lemma_count_unique(init, a);
    }
}

/// Adding an address keeps a list free of repeats and makes it hold the
/// address.
pub proof fn lemma_with_address(addrs: Seq<Seq<char>>, a: Seq<char>)
    requires
        addresses_unique(addrs),
    ensures
        addresses_unique(with_address(addrs, a)),
        with_address(addrs, a).contains(a),
{
    let r = with_address(addrs, a);
    if !addrs.contains(a) {
        assert(r[addrs.len() as int] == a);
        assert forall|i: int, j: int| 0 <= i < r.len() && 0 <= j < r.len() && i != j implies r[i] != r[j] by {
            if i < addrs.len() && j < addrs.len() {
                assert(r[i] == addrs[i] && r[j] == addrs[j]);
            } else if i < addrs.len() {
                assert(r[i] == addrs[i]);
            } else if j < addrs.len() {
                assert(r[j] == addrs[j]);
            }
        }
    }
}

/// Ensuring the same address twice, one call after the other or with both
/// lookups made before either create (the second create then meets the
/// stored address and changes nothing), leaves exactly one url record with
/// that address. `ensure_url`, `create_url` and a text `ingest` each act on
/// the addresses of a store with room as `with_address` does.
pub proof fn lemma_ensure_url_twice(addrs: Seq<Seq<char>>, a: Seq<char>)
    requires
        addresses_unique(addrs),
    ensures
        address_count(with_address(with_address(addrs, a), a), a) == 1,
{
    lemma_with_address(addrs, a);
    lemma_with_address(with_address(addrs, a), a);
    lemma_count_unique(with_address(with_address(addrs, a), a), a);
}

/// The record store.
pub struct PageStore {
    urls: Vec<Url>,
    pages: Vec<Page>,
    next_key: u64,
}

impl PageStore {
    /// The addresses of the url records, in order of creation.
    pub closed spec fn addresses(&self) -> Seq<Seq<char>> {
        self.urls@.map_values(|u: Url| u.address@)
    }

    /// The ids of the url records, in order of creation.
    pub closed spec fn url_ids(&self) -> Seq<RecordId> {
        self.urls@.map_values(|u: Url| u.id.unwrap())
    }

    /// The contents of the page records, in order of creation.
    pub closed spec fn contents(&self) -> Seq<Seq<char>> {
        self.pages@.map_values(|p: Page| p.content@)
    }

    /// The url record that each page record references, in order of creation.
    pub closed spec fn page_urls(&self) -> Seq<RecordId> {
        self.pages@.map_values(|p: Page| p.url)
    }

    /// The ids of the page records, in order of creation.
    pub closed spec fn page_ids(&self) -> Seq<RecordId> {
        self.pages@.map_values(|p: Page| p.id.unwrap())
    }

    /// The next key to hand out.
    pub closed spec fn spec_next_key(&self) -> u64 {
        self.next_key
    }

    /// Whether another record can still be given a key.
    pub open spec fn has_room(&self) -> bool {
        self.spec_next_key() < u64::MAX
    }

    /// Well-formed: every record carries an id of its table with a key below
    /// the next key, url keys are distinct, addresses are unique and every
    /// page references a stored url record.
    pub closed spec fn wf(&self) -> bool {
        &&& forall|i: int| 0 <= i < self.urls@.len() ==> {
            &&& (#[trigger] self.urls@[i]).id is Some
            &&& self.urls@[i].id.unwrap().table == Table::Urls
            &&& self.urls@[i].id.unwrap().key < self.next_key
        }
        &&& forall|i: int, j: int|
            0 <= i < self.urls@.len() && 0 <= j < self.urls@.len() && i != j
                ==> (#[trigger] self.urls@[i]).id.unwrap().key != (#[trigger] self.urls@[j]).id.unwrap().key
        &&& addresses_unique(self.addresses())
        &&& forall|i: int| 0 <= i < self.pages@.len() ==> {
            &&& (#[trigger] self.pages@[i]).id is Some
            &&& self.pages@[i].id.unwrap().table == Table::Pages
            &&& self.pages@[i].id.unwrap().key < self.next_key
            &&& self.url_ids().contains(self.pages@[i].url)
        }
    }

    /// A well-formed store holds each address at most once.
    pub proof fn lemma_addresses_unique(&self)
        requires
            self.wf(),
        ensures
            addresses_unique(self.addresses()),
    {
    }

    /// An empty store.
    pub fn new() -> (r: PageStore)
        ensures
            r.wf(),
            r.addresses() == Seq::<Seq<char>>::empty(),
            r.contents() == Seq::<Seq<char>>::empty(),
            r.spec_next_key() == 0,
            r.has_room(),
    {
        let r = PageStore { urls: Vec::new(), pages: Vec::new(), next_key: 0 };
        assert(r.addresses() =~= Seq::<Seq<char>>::empty());
        assert(r.contents() =~= Seq::<Seq<char>>::empty());
        r
    }

    /// The page side of two stores is the same.
    pub open spec fn same_pages(&self, other: &PageStore) -> bool {
        &&& self.contents() == other.contents()
        &&& self.page_urls() == other.page_urls()
        &&& self.page_ids() == other.page_ids()
    }

    /// The url side of two stores is the same.
    pub open spec fn same_urls(&self, other: &PageStore) -> bool {
        &&& self.addresses() == other.addresses()
        &&& self.url_ids() == other.url_ids()
    }

    /// The id of the url record whose address is `a`, if there is one.
    pub open spec fn id_of_address(&self, a: Seq<char>) -> Option<RecordId> {
        if self.addresses().contains(a) {
            Some(self.url_ids()[self.addresses().index_of(a)])
        } else {
            None
        }
    }

    fn position_of(&self, address: &String) -> (r: Option<usize>)
        requires
            self.wf(),
        ensures
            match r {
                None => !self.addresses().contains(address@),
                Some(i) => i < self.addresses().len() && self.addresses()[i as int] == address@
                    && self.addresses().index_of(address@) == i,
            },
    {
        let mut i: usize = 0;
        while i < self.urls.len()
            invariant
                self.wf(),
                i <= self.urls@.len(),
                forall|j: int| 0 <= j < i ==> self.addresses()[j] != address@,
            decreases self.urls@.len() - i,
        {
            if self.urls[i].address == *address {
                proof {
                    assert(self.addresses()[i as int] == address@);
                    assert(self.addresses().contains(address@));
                    let k = self.addresses().index_of(address@);
                    assert(self.addresses()[k] == address@);
                }
                return Some(i);
            }
            i = i + 1;
        }
        None
    }

    /// Looks up the url record with exactly this address.
    pub fn find_url(&self, address: &str) -> (r: Option<Url>)
        requires
            self.wf(),
        ensures
            match self.id_of_address(address@) {
                None => r is None,
                Some(id) => r is Some && r.unwrap().id == Some(id) && r.unwrap().address@ == address@,
            },
    {
        let a = String::from_str(address);
        match self.position_of(&a) {
            None => None,
            Some(i) => Some(Url { id: self.urls[i].id, address: self.urls[i].address.clone() }),
        }
    }

    /// Creates a url record for `address`. The store refuses a second record
    /// with the same address.
    pub fn create_url(&mut self, address: &str) -> (r: Result<Record, StoreError>)
        requires
            old(self).wf(),
        ensures
            final(self).wf(),
            final(self).same_pages(old(self)),
            old(self).addresses().contains(address@) ==> r == Err::<Record, StoreError>(
                StoreError::DuplicateAddress,
            ) && *final(self) == *old(self),
            !old(self).addresses().contains(address@) && !old(self).has_room() ==> r == Err::<
                Record,
                StoreError,
            >(StoreError::KeysExhausted) && *final(self) == *old(self),
            old(self).addresses().contains(address@) || old(self).has_room() ==> final(self).addresses()
                == with_address(old(self).addresses(), address@),
            addresses_unique(final(self).addresses()),
            !old(self).addresses().contains(address@) && old(self).has_room() ==> {
                &&& r == Ok::<Record, StoreError>(Record { id: url_id(old(self).spec_next_key()) })
                &&& final(self).addresses() == old(self).addresses().push(address@)
                &&& final(self).url_ids() == old(self).url_ids().push(url_id(old(self).spec_next_key()))
                &&& final(self).spec_next_key() == old(self).spec_next_key() + 1
            },
    {
        let a = String::from_str(address);
        if self.position_of(&a).is_some() {
            return Err(StoreError::DuplicateAddress);
        }
        if self.next_key == u64::MAX {
            return Err(StoreError::KeysExhausted);
        }
        let id = RecordId { table: Table::Urls, key: self.next_key };
        let ghost old_store = *self;
        self.urls.push(Url { id: Some(id), address: a });
        self.next_key = self.next_key + 1;
        proof {
            assert(self.addresses() =~= old_store.addresses().push(address@));
            assert(self.url_ids() =~= old_store.url_ids().push(id));
            assert(self.contents() =~= old_store.contents());
            assert(self.page_urls() =~= old_store.page_urls());
            assert(self.page_ids() =~= old_store.page_ids());
            assert forall|i: int| 0 <= i < self.pages@.len() implies self.url_ids().contains(
                #[trigger] self.pages@[i].url,
            ) by {
                assert(old_store.url_ids().contains(old_store.pages@[i].url));
                let k = choose|k: int| 0 <= k < old_store.url_ids().len() && old_store.url_ids()[k] == old_store.pages@[i].url;
                assert(self.url_ids()[k] == self.pages@[i].url);
            }
            assert forall|i: int, j: int|
                0 <= i < self.addresses().len() && 0 <= j < self.addresses().len() && i != j
                    implies self.addresses()[i] != self.addresses()[j] by {
                if i < old_store.urls@.len() && j < old_store.urls@.len() {
                    assert(old_store.addresses()[i] != old_store.addresses()[j]);
                } else if i < old_store.urls@.len() {
                    assert(old_store.addresses()[i] != address@);
                } else if j < old_store.urls@.len() {
                    assert(old_store.addresses()[j] != address@);
                }
            }
        }
        Ok(Record { id })
    }

    fn position_of_id(&self, url: RecordId) -> (r: Option<usize>)
        requires
            self.wf(),
        ensures
            match r {
                None => !self.url_ids().contains(url),
                Some(i) => i < self.url_ids().len() && self.url_ids()[i as int] == url,
            },
    {
        let mut i: usize = 0;
        while i < self.urls.len()
            invariant
                self.wf(),
                i <= self.urls@.len(),
                forall|j: int| 0 <= j < i ==> self.url_ids()[j] != url,
            decreases self.urls@.len() - i,
        {
            if self.urls[i].id == Some(url) {
                return Some(i);
            }
            i = i + 1;
        }
        None
    }

    /// Creates a page record holding `content` and referencing the url record
    /// `url`, which must be stored already.
    pub fn save_page(&mut self, url: RecordId, content: String) -> (r: Result<Record, StoreError>)
        requires
            old(self).wf(),
        ensures
            final(self).wf(),
            final(self).same_urls(old(self)),
            !old(self).url_ids().contains(url) ==> r == Err::<Record, StoreError>(
                StoreError::UnresolvedUrl,
            ) && *final(self) == *old(self),
            old(self).url_ids().contains(url) && !old(self).has_room() ==> r == Err::<
                Record,
                StoreError,
            >(StoreError::KeysExhausted) && *final(self) == *old(self),
            old(self).url_ids().contains(url) && old(self).has_room() ==> {
                &&& r == Ok::<Record, StoreError>(Record { id: page_id(old(self).spec_next_key()) })
                &&& final(self).contents() == old(self).contents().push(content@)
                &&& final(self).page_urls() == old(self).page_urls().push(url)
                &&& final(self).page_ids() == old(self).page_ids().push(page_id(old(self).spec_next_key()))
                &&& final(self).spec_next_key() == old(self).spec_next_key() + 1
            },
    {
        match self.position_of_id(url) {
            None => {
                return Err(StoreError::UnresolvedUrl);
            },
            Some(i) => {
                assert(self.url_ids()[i as int] == url);
            },
        }
        if self.next_key == u64::MAX {
            return Err(StoreError::KeysExhausted);
        }
        let id = RecordId { table: Table::Pages, key: self.next_key };
        let ghost old_store = *self;
        self.pages.push(Page { id: Some(id), content, url });
        self.next_key = self.next_key + 1;
        proof {
            assert(self.addresses() =~= old_store.addresses());
            assert(self.url_ids() =~= old_store.url_ids());
            assert(self.contents() =~= old_store.contents().push(content@));
            assert(self.page_urls() =~= old_store.page_urls().push(url));
            assert(self.page_ids() =~= old_store.page_ids().push(id));
            assert(self.url_ids().contains(url));
        }
        Ok(Record { id })
    }

    /// Returns the url record for `address`, creating it when absent. A
    /// create that meets an existing address counts as finding it.
    pub fn ensure_url(&mut self, address: &str) -> (r: Result<Url, StoreError>)
        requires
            old(self).wf(),
        ensures
            final(self).wf(),
            final(self).same_pages(old(self)),
            addresses_unique(final(self).addresses()),
            r is Ok <==> old(self).addresses().contains(address@) || old(self).has_room(),
            old(self).addresses().contains(address@) ==> *final(self) == *old(self),
            match r {
                Ok(u) => {
                    &&& u.address@ == address@
                    &&& final(self).addresses() == with_address(old(self).addresses(), address@)
                    &&& u.id is Some
                    &&& final(self).id_of_address(address@) == u.id
                    &&& address_count(final(self).addresses(), address@) == 1
                },
                Err(e) => e == StoreError::KeysExhausted && *final(self) == *old(self),
            },
    {
        match self.find_url(address) {
            Some(u) => {
                proof {
                    lemma_count_unique(self.addresses(), address@);
                }
                Ok(u)
            },
            None => {
                let ghost before = *self;
                match self.create_url(address) {
                    Ok(rec) => {
                        proof {
                            let a = self.addresses();
                            assert(a[a.len() - 1] == address@);
                            assert(a.contains(address@));
                            lemma_count_unique(a, address@);
                            let k = a.index_of(address@);
                            assert(k == a.len() - 1) by {
                                if k != a.len() - 1 {
                                    assert(a[k] == a[a.len() - 1]);
                                }
                            }
                            assert(self.url_ids()[k] == rec.id);
                        }
                        Ok(Url { id: Some(rec.id), address: String::from_str(address) })
                    },
                    Err(e) => Err(e),
                }
            },
        }
    }

    /// Number of url records.
    pub fn url_count(&self) -> (r: usize)
        ensures
            r == self.addresses().len(),
    {
        self.urls.len()
    }

    /// Number of page records.
    pub fn page_count(&self) -> (r: usize)
        ensures
            r == self.contents().len(),
    {
        self.pages.len()
    }
}

} // verus!
