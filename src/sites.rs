//! The list of sites to crawl: canonical addresses without repeats, in the
//! order they were added, read from and written to a newline-separated text.
use vstd::prelude::*;
use vstd::string::StrSliceExecFns;
use vstd::string::StringExecFns;
use crate::address::{parse_absolute, url_serialization_of};
use crate::store::{addresses_unique, lemma_with_address, with_address, PageStore};

verus! {

/// The lines of a text from position `start`, the current line having run
/// up to `i`: pieces between newlines, the last one after the final newline.
pub open spec fn split_from(s: Seq<char>, start: int, i: int) -> Seq<Seq<char>>
    decreases s.len() - i,
{
    if i >= s.len() || i < start || start < 0 {
        seq![s.subrange(start, s.len() as int)]
    } else if s[i] == '\n' {
        seq![s.subrange(start, i)] + split_from(s, i + 1, i + 1)
    } else {
        split_from(s, start, i + 1)
    }
}

/// The newline-separated pieces of a text.
pub open spec fn lines_of(s: Seq<char>) -> Seq<Seq<char>> {
    split_from(s, 0, 0)
}

/// A list after reading one line: the line's canonical URL is added when it
/// parses, and the line is passed over otherwise.
pub open spec fn load_line(list: Seq<Seq<char>>, line: Seq<char>) -> Seq<Seq<char>> {
    match url_serialization_of(line) {
        Some(t) => with_address(list, t),
        None => list,
    }
}

/// A list after reading each of `lines` in turn.
pub open spec fn load_lines(list: Seq<Seq<char>>, lines: Seq<Seq<char>>) -> Seq<Seq<char>>
    decreases lines.len(),
{
    if lines.len() == 0 {
        list
    } else {
        load_lines(load_line(list, lines[0]), lines.subrange(1, lines.len() as int))
    }
}

/// Each address followed by a newline.
pub open spec fn sitelist_text_of(list: Seq<Seq<char>>) -> Seq<char>
    decreases list.len(),
{
    if list.len() == 0 {
        Seq::empty()
    } else {
        sitelist_text_of(list.drop_last()) + list.last() + seq!['\n']
    }
}

/// The views of a sequence of strings.
pub open spec fn views_of(v: Seq<String>) -> Seq<Seq<char>> {
    v.map_values(|u: String| u@)
}

/// The sites to crawl.
pub struct SiteList {
    urls: Vec<String>,
}

impl SiteList {
    /// The canonical addresses, in the order they were added.
    pub closed spec fn view_list(&self) -> Seq<Seq<char>> {
        views_of(self.urls@)
    }

    /// No address occurs twice.
    pub open spec fn wf(&self) -> bool {
        addresses_unique(self.view_list())
    }

    /// An empty list.
    pub fn new() -> (r: SiteList)
        ensures
            r.wf(),
            r.view_list() == Seq::<Seq<char>>::empty(),
    {
        let r = SiteList { urls: Vec::new() };
        assert(r.view_list() =~= Seq::<Seq<char>>::empty());
        r
    }

    /// Whether the list holds this canonical address.
    pub fn contains(&self, canonical: &String) -> (r: bool)
        ensures
            r == self.view_list().contains(canonical@),
    {
        let mut i: usize = 0;
        while i < self.urls.len()
            invariant
                i <= self.urls@.len(),
                forall|j: int| 0 <= j < i ==> self.view_list()[j] != canonical@,
            decreases self.urls@.len() - i,
        {
            if self.urls[i] == *canonical {
                assert(self.view_list()[i as int] == canonical@);
                return true;
            }
            i = i + 1;
        }
        false
    }

    /// Adds a canonical address; answers whether it was new.
    pub fn insert(&mut self, canonical: String) -> (r: bool)
        requires
            old(self).wf(),
        ensures
            final(self).wf(),
            r == !old(self).view_list().contains(canonical@),
            final(self).view_list() == with_address(old(self).view_list(), canonical@),
    {
        if self.contains(&canonical) {
            false
        } else {
            let ghost before = self.view_list();
            let ghost c = canonical@;
            self.urls.push(canonical);
            proof {
                assert(self.view_list() =~= before.push(c));
                lemma_with_address(before, c);
            }
            true
        }
    }

    /// The addresses, in the order they were added.
    pub fn addresses(&self) -> (r: Vec<String>)
        ensures
            views_of(r@) == self.view_list(),
    {
        let mut r: Vec<String> = Vec::new();
        let mut i: usize = 0;
        while i < self.urls.len()
            invariant
                i <= self.urls@.len(),
                r@.len() == i,
                views_of(r@) == self.view_list().subrange(0, i as int),
            decreases self.urls@.len() - i,
        {
            let ghost before = r@;
            let c = self.urls[i].clone();
            r.push(c);
            proof {
                assert(r@ == before.push(self.urls@[i as int]));
                assert forall|k: int| 0 <= k < i + 1 implies #[trigger] views_of(r@)[k]
                    == self.view_list().subrange(0, i + 1)[k] by {
                    assert(views_of(r@)[k] == r@[k]@);
                    assert(self.view_list()[k] == self.urls@[k]@);
                    if k < i {
                        assert(r@[k] == before[k]);
                        assert(views_of(before)[k] == before[k]@);
                        assert(views_of(before)[k] == self.view_list().subrange(0, i as int)[k]);
                    } else {
                        assert(r@[k] == self.urls@[i as int]);
                    }
                }
            }
            i = i + 1;
            assert(views_of(r@) =~= self.view_list().subrange(0, i as int));
        }
        assert(self.view_list().subrange(0, i as int) =~= self.view_list());
        r
    }

    /// Reads a newline-separated text, adding the canonical form of each line
    /// that parses as an absolute URL.
    pub fn load(&mut self, text: &str)
        requires
            old(self).wf(),
        ensures
            final(self).wf(),
            final(self).view_list() == load_lines(old(self).view_list(), lines_of(text@)),
    {
        let ghost goal = load_lines(self.view_list(), lines_of(text@));
        let n = text.unicode_len();
        let mut start: usize = 0;
        let mut i: usize = 0;
        while i < n
            invariant
                n == text@.len(),
                start <= i <= n,
                self.wf(),
                goal == load_lines(self.view_list(), split_from(text@, start as int, i as int)),
            decreases n - i,
        {
            if text.get_char(i) == '\n' {
                let line = text.substring_char(start, i);
                let ghost rest = split_from(text@, i + 1, i + 1);
                let ghost lines = seq![line@] + rest;
                proof {
                    assert(lines[0] == line@);
                    assert(lines.subrange(1, lines.len() as int) =~= rest);
                }
                self.load_one(line);
                i = i + 1;
                start = i;
            } else {
                i = i + 1;
            }
        }
        let last = text.substring_char(start, n);
        let ghost before = self.view_list();
        proof {
            let lines = seq![last@];
            assert(split_from(text@, start as int, n as int) == lines);
            assert(lines.subrange(1, 1) =~= Seq::<Seq<char>>::empty());
            assert(load_lines(before, lines) == load_lines(load_line(before, last@), Seq::<Seq<char>>::empty()));
        }
        self.load_one(last);
    }

    fn load_one(&mut self, line: &str)
        requires
            old(self).wf(),
        ensures
            final(self).wf(),
            final(self).view_list() == load_line(old(self).view_list(), line@),
    {
        match parse_absolute(line) {
            Some(t) => {
                self.insert(t);
            },
            None => {},
        }
    }

    /// The text that `load` reads back: each address followed by a newline.
    pub fn to_text(&self) -> (r: String)
        ensures
            r@ == sitelist_text_of(self.view_list()),
    {
        let mut r = String::new();
        let mut i: usize = 0;
        while i < self.urls.len()
            invariant
                i <= self.urls@.len(),
                r@ == sitelist_text_of(self.view_list().subrange(0, i as int)),
            decreases self.urls@.len() - i,
        {
            let ghost before = r@;
            r.append(self.urls[i].as_str());
            r.append("\n");
            proof {
                reveal_strlit("\n");
                let l = self.view_list().subrange(0, i + 1);
                assert(l.drop_last() =~= self.view_list().subrange(0, i as int));
                assert(l.last() == self.view_list()[i as int]);
                assert(r@ =~= before + self.view_list()[i as int] + seq!['\n']);
            }
            i = i + 1;
        }
        assert(self.view_list().subrange(0, i as int) =~= self.view_list());
        r
    }
}

/// What the application keeps between commands: the sites to crawl and the
/// record store.
pub struct AppState {
    pub url_list: SiteList,
    pub db: PageStore,
}

impl AppState {
    /// The state of a fresh start: no sites and an empty store.
    pub fn new() -> (r: AppState)
        ensures
            r.url_list.wf(),
            r.url_list.view_list() == Seq::<Seq<char>>::empty(),
            r.db.wf(),
            r.db.addresses() == Seq::<Seq<char>>::empty(),
            r.db.contents() == Seq::<Seq<char>>::empty(),
            r.db.spec_next_key() == 0,
            r.db.has_room(),
    {
        AppState { url_list: SiteList::new(), db: PageStore::new() }
    }
}

/// Adds a site given as text. Answers true when the text is an absolute URL
/// whose canonical form was not listed yet, and false otherwise, leaving the
/// list unchanged.
pub fn add_new_url(state: &mut AppState, url: &str) -> (r: bool)
    requires
        old(state).url_list.wf(),
    ensures
        final(state).url_list.wf(),
        final(state).db == old(state).db,
        match url_serialization_of(url@) {
            None => !r && final(state).url_list.view_list() == old(state).url_list.view_list(),
            Some(t) => r == !old(state).url_list.view_list().contains(t)
                && final(state).url_list.view_list() == with_address(old(state).url_list.view_list(), t),
        },
{
    match parse_absolute(url) {
        None => false,
        Some(t) => state.url_list.insert(t),
    }
}

/// The listed sites, in the order they were added.
pub fn get_sitelist(state: &AppState) -> (r: Vec<String>)
    ensures
        views_of(r@) == state.url_list.view_list(),
{
    state.url_list.addresses()
}

} // verus!
