//! Directory listings: one link per entry, relative to the serving root,
//! on a minimal HTML page.
use vstd::prelude::*;
use crate::error::ErrorKind;
use crate::paths::{dir_form, directory_form, is_within, path_relative_to, relative_to};
use crate::text::{ends_with_slash, views};

verus! {

/// One list item linking to `link`.
pub open spec fn list_item(link: Seq<char>) -> Seq<char> {
    "<li><a href=\""@ + link + "\">"@ + link + "</a></li>\n"@
}

/// The list items for `links`, in order.
pub open spec fn list_items(links: Seq<Seq<char>>) -> Seq<char>
    decreases links.len(),
{
    if links.len() == 0 {
        Seq::empty()
    } else {
        list_items(links.drop_last()) + list_item(links.last())
    }
}

/// The page for `links`: the first names the directory shown, ending in
/// `/`, the rest are listed.
pub open spec fn listing_page(links: Seq<Seq<char>>) -> Seq<char> {
    "<meta charset=\"UTF-8\"><html><body><h1>"@ + dir_form(links[0]) + "</h1><ul>"@ + list_items(
        links.drop_first(),
    ) + "</ul></body></html>"@
}

/// Renders the page for `links`; the first is the directory shown, the
/// others its entries.
pub fn to_html(links: &[String]) -> (r: String)
    requires
        links@.len() >= 1,
    ensures
        r@ == listing_page(views(links@)),
{
    let ghost all = views(links@);
    let mut hrefs = String::new();
    let mut i: usize = 1;
    assert(all.subrange(1, 1) =~= Seq::<Seq<char>>::empty());
    while i < links.len()
        invariant
            all == views(links@),
            1 <= i <= links@.len(),
            hrefs@ == list_items(all.subrange(1, i as int)),
        decreases links@.len() - i,
    {
        let link = links[i].as_str();
        hrefs.append("<li><a href=\"");
        hrefs.append(link);
        hrefs.append("\">");
        hrefs.append(link);
        hrefs.append("</a></li>\n");
        assert(all.subrange(1, i + 1).drop_last() =~= all.subrange(1, i as int));
        assert(all.subrange(1, i + 1).last() == link@);
        i += 1;
    }
    assert(all.subrange(1, links@.len() as int) =~= all.drop_first());
    let cur_dir = directory_form(links[0].as_str());
    let mut page = String::from_str("<meta charset=\"UTF-8\"><html><body><h1>");
    page.append(cur_dir.as_str());
    page.append("</h1><ul>");
    page.append(hrefs.as_str());
    page.append("</ul></body></html>");
    page
}

/// One entry of a directory, as the file system reported it.
pub struct ListingEntry {
    pub path: String,
    pub is_dir: bool,
}

/// The link for a path within `base`: `/` and the path relative to
/// `base`, with a trailing `/` for a directory.
pub open spec fn link_of(base: Seq<char>, path: Seq<char>, is_dir: bool) -> Seq<char> {
    let l = seq!['/'] + relative_to(base, path);
    if is_dir && l.last() != '/' {
        l.push('/')
    } else {
        l
    }
}

/// The links for `entries`, in order.
pub open spec fn links_of(base: Seq<char>, entries: Seq<ListingEntry>) -> Seq<Seq<char>> {
    entries.map_values(|e: ListingEntry| link_of(base, e.path@, e.is_dir))
}

/// Whether every entry lies within `base`.
pub open spec fn all_within(base: Seq<char>, entries: Seq<ListingEntry>) -> bool {
    forall|i: int| 0 <= i < entries.len() ==> is_within(base, (#[trigger] entries[i]).path@)
}

/// The link for `path`, or `None` where it is not within `base`.
pub fn link_for(base: &str, path: &str, is_dir: bool) -> (r: Option<String>)
    ensures
        r is Some <==> is_within(base@, path@),
        r matches Some(l) ==> l@ == link_of(base@, path@, is_dir),
{
    match path_relative_to(base, path) {
        None => None,
        Some(rel) => {
            let mut l = String::from_str("/");
            proof {
                reveal_strlit("/");
            }
            l.append(rel.as_str());
            assert(l@ =~= seq!['/'] + relative_to(base@, path@));
            if is_dir && !ends_with_slash(l.as_str()) {
                l.append("/");
            }
            Some(l)
        },
    }
}

/// The page listing directory `dir` with its `entries`; every link is
/// relative to `base`, the serving root. A path outside `base` fails the
/// listing as a traversal attempt.
pub fn directory_listing(base: &str, dir: &str, entries: &[ListingEntry]) -> (r: Result<String, ErrorKind>)
    ensures
        r is Ok <==> is_within(base@, dir@) && all_within(base@, entries@),
        r matches Err(e) ==> e == ErrorKind::TraversalAttempt,
        r matches Ok(page) ==> page@ == listing_page(
            seq![link_of(base@, dir@, true)] + links_of(base@, entries@),
        ),
{
    let mut links: Vec<String> = Vec::new();
    match link_for(base, dir, true) {
        None => {
            return Err(ErrorKind::TraversalAttempt);
        },
        Some(l) => links.push(l),
    }
    let ghost head = seq![link_of(base@, dir@, true)];
    let mut i: usize = 0;
    assert(views(links@) =~= head + links_of(base@, entries@.take(0)));
    while i < entries.len()
        invariant
            i <= entries@.len(),
            head == seq![link_of(base@, dir@, true)],
            views(links@) == head + links_of(base@, entries@.take(i as int)),
            forall|k: int| 0 <= k < i ==> is_within(base@, (#[trigger] entries@[k]).path@),
        decreases entries@.len() - i,
    {
        let e = &entries[i];
        match link_for(base, e.path.as_str(), e.is_dir) {
            None => {
                return Err(ErrorKind::TraversalAttempt);
            },
            Some(l) => {
                let ghost before = links@;
                links.push(l);
                assert(views(links@) =~= views(before).push(l@));
                assert(links_of(base@, entries@.take(i + 1)) =~= links_of(base@, entries@.take(i as int)).push(
                    link_of(base@, e.path@, e.is_dir),
                ));
            },
        }
        i += 1;
    }
    assert(entries@.take(entries@.len() as int) =~= entries@);
    Ok(to_html(links.as_slice()))
}

proof fn lemma_list_items_concat(a: Seq<Seq<char>>, b: Seq<Seq<char>>)
    ensures
        list_items(a + b) == list_items(a) + list_items(b),
    decreases b.len(),
{
    if b.len() == 0 {
        assert(a + b =~= a);
        assert(list_items(a) + list_items(b) =~= list_items(a));
    } else {
        lemma_list_items_concat(a, b.drop_last());
        assert((a + b).drop_last() =~= a + b.drop_last());
        assert((a + b).last() == b.last());
        assert(list_items(a) + list_items(b) =~= list_items(a) + list_items(b.drop_last()) + list_item(
            b.last(),
        ));
    }
}

/// Every entry of a listed directory appears on its page as a list item
/// linking to the entry's path relative to the serving root, with a
/// trailing `/` for a directory, wherever the entry stands in the order
/// the file system gave.
pub proof fn every_entry_is_linked(base: Seq<char>, dir: Seq<char>, entries: Seq<ListingEntry>, i: int)
    requires
        0 <= i < entries.len(),
    ensures
        exists|pre: Seq<char>, post: Seq<char>|
            listing_page(seq![link_of(base, dir, true)] + links_of(base, entries)) == pre + list_item(
                link_of(base, entries[i].path@, entries[i].is_dir),
            ) + post,
{
    let links = links_of(base, entries);
    let all = seq![link_of(base, dir, true)] + links;
    assert(all.drop_first() =~= links);
    assert(links =~= links.take(i) + seq![links[i]] + links.skip(i + 1));
    lemma_list_items_concat(links.take(i) + seq![links[i]], links.skip(i + 1));
    lemma_list_items_concat(links.take(i), seq![links[i]]);
    assert(seq![links[i]].drop_last() =~= Seq::<Seq<char>>::empty());
    assert(list_items(Seq::<Seq<char>>::empty()) == Seq::<char>::empty());
    assert(seq![links[i]].last() == links[i]);
    assert(list_items(seq![links[i]]) =~= list_item(links[i]));
    let pre = "<meta charset=\"UTF-8\"><html><body><h1>"@ + dir_form(all[0]) + "</h1><ul>"@ + list_items(
        links.take(i),
    );
    let post = list_items(links.skip(i + 1)) + "</ul></body></html>"@;
    assert(listing_page(all) =~= pre + list_item(links[i]) + post);
}

} // verus!
