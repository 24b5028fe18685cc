use crate::indexing::store::NameMap;
use crate::indexing::validated::ValidatedIndex;
use vstd::prelude::*;

verus! {

/// An image that a rendered notebook refers to, stored beside its text.
pub struct NotebookImage {
    pub name: String,
    pub data: Vec<u8>,
}

/// A notebook rendered to the output format: its text and its images.
pub struct RenderedNotebook {
    pub text: String,
    pub images: Vec<NotebookImage>,
}

/// The rendered pages and notebooks, by the path they are written to.
pub struct SerializableIndex {
    pub page_store: NameMap<String>,
    pub notebook_store: NameMap<RenderedNotebook>,
}

/// `text` ending in a newline: unchanged when it does, else with one added.
pub open spec fn with_final_newline(text: Seq<char>) -> Seq<char> {
    if text.len() > 0 && text.last() == '\n' {
        text
    } else {
        text.push('\n')
    }
}

/// Ending text in a newline twice is ending it once: a text that already ends in a newline
/// gets no second one.
pub proof fn law_final_newline_idempotent(text: Seq<char>)
    ensures
        with_final_newline(with_final_newline(text)) == with_final_newline(text),
        with_final_newline(text).last() == '\n',
{
}

/// Ends `text` with a newline, as some tools expect one at the end of a file.
pub fn ensure_final_newline(text: &mut String)
    ensures
        final(text)@ == with_final_newline(old(text)@),
{
    let n = text.as_str().unicode_len();
    let ends_with_newline = n > 0 && text.as_str().get_char(n - 1) == '\n';
    if !ends_with_newline {
        text.append("\n");
        proof {
            reveal_strlit("\n");
        }
    }
}

impl SerializableIndex {
    pub fn new() -> (r: Self)
        ensures
            r.page_store@ == Map::<Seq<char>, String>::empty(),
            r.notebook_store@ == Map::<Seq<char>, RenderedNotebook>::empty(),
            r.page_store.names() == Seq::<Seq<char>>::empty(),
            r.notebook_store.names() == Seq::<Seq<char>>::empty(),
    {
        SerializableIndex { page_store: NameMap::new(), notebook_store: NameMap::new() }
    }

    /// Stores a rendered notebook under `key`, its text ending in a newline.
    pub fn add_notebook(&mut self, key: String, mut rendered: RenderedNotebook)
        ensures
            final(self).page_store == old(self).page_store,
            final(self).notebook_store@.contains_key(key@),
            final(self).notebook_store@[key@].text@ == with_final_newline(rendered.text@),
            final(self).notebook_store@[key@].images == rendered.images,
            forall|k: Seq<char>|
                k != key@ ==> #[trigger] final(self).notebook_store@.contains_key(k) == old(
                    self,
                ).notebook_store@.contains_key(k) && (old(self).notebook_store@.contains_key(k)
                    ==> final(self).notebook_store@[k] == old(self).notebook_store@[k]),
    {
        ensure_final_newline(&mut rendered.text);
        self.notebook_store.insert(key, rendered);
    }

    /// The rendered output of a validated index: each page's rendering under its name and,
    /// where notebooks are written, each notebook that rendered under its name, its text
    /// ending in a newline. `rendered_pages` follows the order of the page store's names;
    /// `rendered_notebooks` that of the notebook store's, with `None` for a notebook that
    /// did not render.
    pub fn from_validated(
        validated: ValidatedIndex,
        rendered_pages: Vec<String>,
        rendered_notebooks: Option<Vec<Option<RenderedNotebook>>>,
    ) -> (r: Self)
        requires
            rendered_pages@.len() == validated.page_store.names().len(),
            rendered_notebooks matches Some(nbs) ==> nbs@.len()
                == validated.notebook_store.names().len(),
        ensures
            r.page_store.names() == validated.page_store.names(),
            forall|j: int|
                0 <= j < rendered_pages@.len() ==> #[trigger] r.page_store@[validated.page_store.names()[j]]@
                    == rendered_pages@[j]@,
            match rendered_notebooks {
                None => r.notebook_store@ == Map::<Seq<char>, RenderedNotebook>::empty(),
                Some(nbs) => {
                    &&& forall|k: Seq<char>| #[trigger]
                        r.notebook_store@.contains_key(k) <==> exists|j: int|
                            0 <= j < nbs@.len() && validated.notebook_store.names()[j] == k
                                && #[trigger] nbs@[j] is Some
                    &&& forall|j: int|
                        0 <= j < nbs@.len() && #[trigger] nbs@[j] is Some ==> {
                            &&& r.notebook_store@[validated.notebook_store.names()[j]].text@
                                == with_final_newline(nbs@[j]->0.text@)
                            &&& r.notebook_store@[validated.notebook_store.names()[j]].images
                                == nbs@[j]->0.images
                        }
                },
            },
    {
        let mut r = SerializableIndex::new();
        let ghost page_names = validated.page_store.names();
        let ghost all_pages = rendered_pages@;
        let mut pages = rendered_pages;
        let n = validated.page_store.len();
        let mut i: usize = 0;
        while i < n
            invariant
                i <= n,
                n == page_names.len(),
                page_names == validated.page_store.names(),
                page_names.no_duplicates(),
                all_pages.len() == n,
                pages@ == all_pages.skip(i as int),
                r.page_store.names() == page_names.take(i as int),
                forall|j: int| 0 <= j < i ==> #[trigger] r.page_store@[page_names[j]]@ == all_pages[j]@,
                r.notebook_store@ == Map::<Seq<char>, RenderedNotebook>::empty(),
            decreases n - i,
        {
            let (key, _page) = validated.page_store.entry_at(i);
            let text = pages.remove(0);
            assert(text == all_pages[i as int]);
            proof {
                r.page_store.lemma_names_are_keys();
                assert(!page_names.take(i as int).contains(page_names[i as int])) by {
                    if page_names.take(i as int).contains(page_names[i as int]) {
                        let j = choose|j: int|
                            0 <= j < i && page_names.take(i as int)[j] == page_names[i as int];
                        assert(page_names[j] == page_names[i as int]);
                    }
                }
            }
            r.page_store.insert(key.clone(), text);
            assert(page_names.take(i + 1) == page_names.take(i as int).push(page_names[i as int]));
            assert(pages@ == all_pages.skip(i + 1));
            i += 1;
        }
        assert(page_names.take(n as int) == page_names);
        match rendered_notebooks {
            None => r,
            Some(nbs) => {
                let ghost nb_names = validated.notebook_store.names();
                let ghost all = nbs@;
                let mut rest = nbs;
                let m = validated.notebook_store.len();
                let mut i: usize = 0;
                while i < m
                    invariant
                        i <= m,
                        m == nb_names.len(),
                        nb_names == validated.notebook_store.names(),
                        nb_names.no_duplicates(),
                        all.len() == m,
                        rest@ == all.skip(i as int),
                        r.page_store.names() == page_names,
                        forall|j: int|
                            0 <= j < all_pages.len() ==> #[trigger] r.page_store@[page_names[j]]@
                                == all_pages[j]@,
                        forall|k: Seq<char>| #[trigger]
                            r.notebook_store@.contains_key(k) <==> exists|j: int|
                                0 <= j < i && nb_names[j] == k && #[trigger] all[j] is Some,
                        forall|j: int|
                            0 <= j < i && #[trigger] all[j] is Some ==> {
                                &&& r.notebook_store@[nb_names[j]].text@ == with_final_newline(
                                    all[j]->0.text@,
                                )
                                &&& r.notebook_store@[nb_names[j]].images == all[j]->0.images
                            },
                    decreases m - i,
                {
                    let (key, _cells) = validated.notebook_store.entry_at(i);
                    let nb = rest.remove(0);
                    assert(nb == all[i as int]);
                    assert(rest@ == all.skip(i + 1));
                    match nb {
                        Some(rendered) => {
                            let ghost before = r.notebook_store@;
                            r.add_notebook(key.clone(), rendered);
                            assert forall|j: int|
                                0 <= j < i + 1 && #[trigger] all[j] is Some implies {
                                    &&& r.notebook_store@[nb_names[j]].text@ == with_final_newline(
                                        all[j]->0.text@,
                                    )
                                    &&& r.notebook_store@[nb_names[j]].images == all[j]->0.images
                                } by {
                                if j < i {
                                    assert(nb_names[j] != nb_names[i as int]);
                                    assert(before.contains_key(nb_names[j]));
                                    assert(r.notebook_store@.contains_key(nb_names[j]));
                                    assert(r.notebook_store@[nb_names[j]] == before[nb_names[j]]);
                                } else {
                                    assert(nb_names[j] == key@);
                                }
                            }
                            assert forall|k: Seq<char>| #[trigger]
                                r.notebook_store@.contains_key(k) <==> exists|j: int|
                                    0 <= j < i + 1 && nb_names[j] == k && #[trigger] all[j] is Some by {
                                if k == nb_names[i as int] {
                                    assert(all[i as int] is Some);
                                }
                            }
                        },
                        None => {
                            assert forall|k: Seq<char>| #[trigger]
                                r.notebook_store@.contains_key(k) <==> exists|j: int|
                                    0 <= j < i + 1 && nb_names[j] == k && #[trigger] all[j] is Some by {
                                if exists|j: int| 0 <= j < i + 1 && nb_names[j] == k && #[trigger] all[j] is Some {
                                    let j = choose|j: int| 0 <= j < i + 1 && nb_names[j] == k && #[trigger] all[j] is Some;
                                    assert(j < i);
                                }
                            }
                        },
                    }
                    i += 1;
                }
                r
            },
        }
    }
}

} // verus!
