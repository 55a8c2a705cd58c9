//! What holds of everything that is read from the ListenBrainz feeds.
use vstd::prelude::*;

use crate::distinct::has_key;
use crate::json::JsonTree;
use crate::listenbrainz::{
    artist_of, artist_views, artists_in, artists_of, first_text, picked, sitewide_query,
    work_of, work_views, works_in, works_of, ArtistView, PopularArtist, PopularWork, WorkView,
};
use crate::number::decimal;
use crate::text::{is_blank, opt_text, trimmed};

verus! {

// ---------------------------------------------------------------------------
// Entries
// ---------------------------------------------------------------------------

/// The first of two texts that is there.
pub open spec fn either(a: Option<Seq<char>>, b: Option<Seq<char>>) -> Option<Seq<char>> {
    if a is Some {
        a
    } else {
        b
    }
}

/// Does a text hold anything but white space?
pub open spec fn says_something(s: Option<Seq<char>>) -> bool {
    s matches Some(s) && !is_blank(s)
}

/// The text under which an entry gives the id of a work.
pub open spec fn work_id_text(entry: JsonTree) -> Option<Seq<char>> {
    either(entry.text_of("release_group_mbid"@), entry.text_of("release_group_id"@))
}

/// The text under which an entry gives the title of a work.
pub open spec fn work_title_text(entry: JsonTree) -> Option<Seq<char>> {
    either(
        entry.text_of("release_group_name"@),
        either(
            entry.text_of("release_name"@),
            either(entry.text_of("title"@), entry.text_of("name"@)),
        ),
    )
}

/// The text under which an entry gives the artist of a work.
pub open spec fn work_artist_text(entry: JsonTree) -> Option<Seq<char>> {
    either(
        entry.text_of("artist_credit_name"@),
        either(entry.text_of("artist_name"@), entry.text_of("artist"@)),
    )
}

/// The text under which an entry gives the date of a work.
pub open spec fn work_date_text(entry: JsonTree) -> Option<Seq<char>> {
    either(
        entry.text_of("release_date"@),
        either(entry.text_of("date"@), entry.text_of("first_release_date"@)),
    )
}

/// Does an entry list an artist id first?
pub open spec fn lists_artist(entry: JsonTree, id: Seq<char>) -> bool {
    entry.items_of("artist_mbids"@) matches Some(ids) && ids.len() > 0 && ids[0]
        == JsonTree::Text(id)
}

/// Does an entry give the number of an image?
pub open spec fn numbers_image(entry: JsonTree, id: i64) -> bool {
    entry.get("caa_id"@) == Some(JsonTree::Number(Some(id)))
}

proof fn lemma_first_of_one(entry: JsonTree, a: Seq<char>)
    ensures
        first_text(entry, seq![a]) == entry.text_of(a),
{
    reveal_with_fuel(first_text, 2);
    assert(seq![a].drop_first() =~= Seq::empty());
}

proof fn lemma_first_of_two(entry: JsonTree, a: Seq<char>, b: Seq<char>)
    ensures
        first_text(entry, seq![a, b]) == either(entry.text_of(a), entry.text_of(b)),
{
    assert(seq![a, b].drop_first() =~= seq![b]);
    lemma_first_of_one(entry, b);
}

proof fn lemma_first_of_three(entry: JsonTree, a: Seq<char>, b: Seq<char>, c: Seq<char>)
    ensures
        first_text(entry, seq![a, b, c]) == either(
            entry.text_of(a),
            either(entry.text_of(b), entry.text_of(c)),
        ),
{
    assert(seq![a, b, c].drop_first() =~= seq![b, c]);
    lemma_first_of_two(entry, b, c);
}

proof fn lemma_first_of_four(
    entry: JsonTree,
    a: Seq<char>,
    b: Seq<char>,
    c: Seq<char>,
    d: Seq<char>,
)
    ensures
        first_text(entry, seq![a, b, c, d]) == either(
            entry.text_of(a),
            either(entry.text_of(b), either(entry.text_of(c), entry.text_of(d))),
        ),
{
    assert(seq![a, b, c, d].drop_first() =~= seq![b, c, d]);
    lemma_first_of_three(entry, b, c, d);
}

/// A work is what its entry says of it, by whichever name the feed has for each
/// field, without the white space around it.
///
/// An entry reports a work just where it gives an id and a title. Its artist is
/// named by the credit, or else by the artist's name, or else by the artist; it
/// is the empty text where none of these says anything. Its artist's id is the
/// one it gives, or else the first it lists; and it has a cover where it gives
/// both the release and the number of the image.
pub proof fn lemma_a_work_is_what_its_entry_says(entry: JsonTree)
    ensures
        work_of(entry) is Some <==> says_something(work_id_text(entry)) && says_something(
            work_title_text(entry),
        ),
        work_of(entry) matches Some(w) ==> {
            let given = entry.text_of("artist_mbid"@);
            let release = entry.text_of("caa_release_mbid"@);
            &&& w.release_group_mbid == trimmed(work_id_text(entry)->0)
            &&& w.title == trimmed(work_title_text(entry)->0)
            &&& says_something(work_artist_text(entry)) ==> w.artist_name == trimmed(
                work_artist_text(entry)->0,
            )
            &&& !says_something(work_artist_text(entry)) ==> w.artist_name.len() == 0
            &&& says_something(given) ==> w.artist_mbid == Some(trimmed(given->0))
            &&& !says_something(given) ==> forall|id: Seq<char>| #[trigger]
                lists_artist(entry, id) && id.len() > 0 ==> w.artist_mbid == Some(id)
            &&& !says_something(given) && w.artist_mbid is Some ==> lists_artist(
                entry,
                w.artist_mbid->0,
            ) && w.artist_mbid->0.len() > 0
            &&& says_something(release) ==> forall|id: i64| #[trigger]
                numbers_image(entry, id) ==> w.caa == Some((trimmed(release->0), id))
            &&& w.caa matches Some((r, id)) ==> says_something(release) && r == trimmed(
                release->0,
            ) && numbers_image(entry, id)
            &&& says_something(work_date_text(entry)) ==> w.release_date == Some(
                trimmed(work_date_text(entry)->0),
            )
            &&& !says_something(work_date_text(entry)) ==> w.release_date is None
        },
{
    lemma_first_of_two(entry, "release_group_mbid"@, "release_group_id"@);
    lemma_first_of_four(entry, "release_group_name"@, "release_name"@, "title"@, "name"@);
    lemma_first_of_three(entry, "artist_credit_name"@, "artist_name"@, "artist"@);
    lemma_first_of_three(entry, "release_date"@, "date"@, "first_release_date"@);
    lemma_first_of_one(entry, "artist_mbid"@);
    lemma_first_of_one(entry, "caa_release_mbid"@);
}

/// An artist is what its entry says of it: an entry reports one just where it
/// has an id, the one it gives or else the first it lists, and a name.
pub proof fn lemma_an_artist_is_what_its_entry_says(entry: JsonTree)
    ensures
        ({
            let given = entry.text_of("artist_mbid"@);
            let name = either(entry.text_of("artist_name"@), entry.text_of("name"@));
            &&& says_something(given) && says_something(name) ==> artist_of(entry) == Some(
                ArtistView { artist_mbid: trimmed(given->0), name: trimmed(name->0) },
            )
            &&& !says_something(given) && says_something(name) ==> {
                &&& forall|id: Seq<char>| #[trigger]
                    lists_artist(entry, id) && id.len() > 0 ==> artist_of(entry) == Some(
                        ArtistView { artist_mbid: id, name: trimmed(name->0) },
                    )
                &&& artist_of(entry) matches Some(a) ==> lists_artist(entry, a.artist_mbid)
                    && a.artist_mbid.len() > 0
            }
            &&& !says_something(name) ==> artist_of(entry) is None
        }),
{
    lemma_first_of_two(entry, "artist_name"@, "name"@);
    lemma_first_of_one(entry, "artist_mbid"@);
}

// ---------------------------------------------------------------------------
// Lists
// ---------------------------------------------------------------------------

/// One more entry adds its work behind the others, unless it reports none, or
/// one of a release-group that is among them already.
pub proof fn lemma_works_grow(before: Seq<JsonTree>, entry: JsonTree)
    ensures
        works_of(Seq::empty()) == Seq::<WorkView>::empty(),
        ({
            let works = works_of(before);
            let known = |id: Seq<char>|
                exists|k: int|
                    0 <= k < works.len() && (#[trigger] works[k]).release_group_mbid == id;
            &&& work_of(entry) is None ==> works_of(before.push(entry)) == works_of(before)
            &&& work_of(entry) matches Some(w) ==> {
                &&& known(w.release_group_mbid) ==> works_of(before.push(entry)) == works_of(before)
                &&& !known(w.release_group_mbid) ==> works_of(before.push(entry)) == works_of(
                    before,
                ).push(w)
            }
        }),
{
    let pick = |e: JsonTree| work_of(e);
    let id = |w: WorkView| w.release_group_mbid;
    let none: Seq<JsonTree> = Seq::empty();
    assert(none.filter_map(pick) =~= Seq::empty());
    let all = before.push(entry);
    let done = before.filter_map(pick);
    assert(all.drop_last() =~= before);
    if let Some(w) = work_of(entry) {
        assert(all.filter_map(pick) =~= done.push(w));
        assert(done.push(w).drop_last() =~= done);
        let works = works_of(before);
        if has_key(works, id, w.release_group_mbid) {
            let k = choose|k: int|
                0 <= k < works.len() && id(#[trigger] works[k]) == w.release_group_mbid;
            assert(works[k].release_group_mbid == w.release_group_mbid);
        }
        assert forall|k: int|
            0 <= k < works.len() && (#[trigger] works[k]).release_group_mbid
                == w.release_group_mbid implies has_key(works, id, w.release_group_mbid) by {
            assert(id(works[k]) == w.release_group_mbid);
        }
    } else {
        assert(all.filter_map(pick) =~= done);
    }
}

/// One more entry adds its artist behind the others, unless it reports none, or
/// one that is among them already.
pub proof fn lemma_artists_grow(before: Seq<JsonTree>, entry: JsonTree)
    ensures
        artists_of(Seq::empty()) == Seq::<ArtistView>::empty(),
        ({
            let artists = artists_of(before);
            let known = |id: Seq<char>|
                exists|k: int|
                    0 <= k < artists.len() && (#[trigger] artists[k]).artist_mbid == id;
            &&& artist_of(entry) is None ==> artists_of(before.push(entry)) == artists_of(before)
            &&& artist_of(entry) matches Some(a) ==> {
                &&& known(a.artist_mbid) ==> artists_of(before.push(entry)) == artists_of(before)
                &&& !known(a.artist_mbid) ==> artists_of(before.push(entry)) == artists_of(
                    before,
                ).push(a)
            }
        }),
{
    let pick = |e: JsonTree| artist_of(e);
    let id = |a: ArtistView| a.artist_mbid;
    let none: Seq<JsonTree> = Seq::empty();
    assert(none.filter_map(pick) =~= Seq::empty());
    let all = before.push(entry);
    let done = before.filter_map(pick);
    assert(all.drop_last() =~= before);
    if let Some(a) = artist_of(entry) {
        assert(all.filter_map(pick) =~= done.push(a));
        assert(done.push(a).drop_last() =~= done);
        let artists = artists_of(before);
        if has_key(artists, id, a.artist_mbid) {
            let k = choose|k: int|
                0 <= k < artists.len() && id(#[trigger] artists[k]) == a.artist_mbid;
            assert(artists[k].artist_mbid == a.artist_mbid);
        }
        assert forall|k: int|
            0 <= k < artists.len() && (#[trigger] artists[k]).artist_mbid
                == a.artist_mbid implies has_key(artists, id, a.artist_mbid) by {
            assert(id(artists[k]) == a.artist_mbid);
        }
    } else {
        assert(all.filter_map(pick) =~= done);
    }
}

/// A document's list stands under `payload` and the key, or else under the key
/// alone, or else is the whole document; and a document without one lists
/// nothing.
pub proof fn lemma_where_the_list_stands(doc: JsonTree, key: Seq<char>)
    ensures
        ({
            let inner = match doc.get("payload"@) {
                Some(p) => p.get(key),
                None => None,
            };
            let outer = doc.get(key);
            &&& inner matches Some(JsonTree::List(items)) ==> works_in(doc, key) == works_of(items)
            &&& !(inner matches Some(JsonTree::List(_))) ==> {
                &&& outer matches Some(JsonTree::List(items)) ==> works_in(doc, key) == works_of(
                    items,
                )
                &&& !(outer matches Some(JsonTree::List(_))) ==> {
                    &&& doc matches JsonTree::List(items) ==> works_in(doc, key) == works_of(items)
                    &&& !(doc matches JsonTree::List(_)) ==> works_in(doc, key).len() == 0
                }
            }
        }),
        ({
            let inner = match doc.get("payload"@) {
                Some(p) => p.get("artists"@),
                None => None,
            };
            let outer = doc.get("artists"@);
            &&& inner matches Some(JsonTree::List(items)) ==> artists_in(doc) == artists_of(items)
            &&& !(inner matches Some(JsonTree::List(_))) ==> {
                &&& outer matches Some(JsonTree::List(items)) ==> artists_in(doc) == artists_of(
                    items,
                )
                &&& !(outer matches Some(JsonTree::List(_))) ==> {
                    &&& doc matches JsonTree::List(items) ==> artists_in(doc) == artists_of(items)
                    &&& !(doc matches JsonTree::List(_)) ==> artists_in(doc).len() == 0
                }
            }
        }),
{
}

/// Every work that an entry reports is in the row, as the first entry of its
/// release-group reports it.
pub proof fn lemma_every_reported_work_is_listed(entries: Seq<JsonTree>, i: int)
    requires
        0 <= i < entries.len(),
        work_of(entries[i]) is Some,
    ensures
        exists|k: int|
            0 <= k < works_of(entries).len() && (#[trigger] works_of(entries)[k]).release_group_mbid
                == work_of(entries[i])->0.release_group_mbid,
        (forall|j: int|
            0 <= j < i ==> ((#[trigger] work_of(entries[j])) matches Some(w)
                ==> w.release_group_mbid != work_of(entries[i])->0.release_group_mbid))
            ==> works_of(entries).contains(work_of(entries[i])->0),
    decreases entries.len(),
{
    let before = entries.drop_last();
    let last = entries.last();
    let all = works_of(entries);
    let works = works_of(before);
    let w = work_of(entries[i])->0;
    lemma_works_grow(before, last);
    assert(before.push(last) =~= entries);
    if i < before.len() {
        assert(before[i] == entries[i]);
        lemma_every_reported_work_is_listed(before, i);
        let k = choose|k: int|
            0 <= k < works.len() && (#[trigger] works[k]).release_group_mbid
                == w.release_group_mbid;
        assert(all[k] == works[k]);
        if forall|j: int|
            0 <= j < i ==> ((#[trigger] work_of(entries[j])) matches Some(v)
                ==> v.release_group_mbid != w.release_group_mbid) {
            assert forall|j: int| 0 <= j < i implies ((#[trigger] work_of(before[j])) matches Some(
                v,
            ) ==> v.release_group_mbid != w.release_group_mbid) by {
                assert(before[j] == entries[j]);
                assert(work_of(entries[j]) == work_of(before[j]));
            }
            let n = choose|n: int| 0 <= n < works.len() && works[n] == w;
            assert(all[n] == w);
        }
    } else {
        let known = exists|k: int|
            0 <= k < works.len() && (#[trigger] works[k]).release_group_mbid
                == w.release_group_mbid;
        if known {
            let k = choose|k: int|
                0 <= k < works.len() && (#[trigger] works[k]).release_group_mbid
                    == w.release_group_mbid;
            assert(all[k] == works[k]);
            lemma_listed_work_is_reported(before, k);
            let j = choose|j: int|
                0 <= j < before.len() && #[trigger] work_of(before[j]) == Some(works[k]);
            assert(work_of(entries[j]) == Some(works[k]));
        } else {
            assert(all[all.len() - 1] == w);
        }
    }
}

/// Every work of a row is what some entry reports.
pub proof fn lemma_listed_work_is_reported(entries: Seq<JsonTree>, k: int)
    requires
        0 <= k < works_of(entries).len(),
    ensures
        exists|j: int|
            0 <= j < entries.len() && #[trigger] work_of(entries[j]) == Some(works_of(entries)[k]),
    decreases entries.len(),
{
    if entries.len() == 0 {
        lemma_works_grow(entries, JsonTree::Null);
        assert(entries =~= Seq::empty());
    } else {
        let before = entries.drop_last();
        lemma_works_grow(before, entries.last());
        assert(before.push(entries.last()) =~= entries);
        if k < works_of(before).len() {
            lemma_listed_work_is_reported(before, k);
            let j = choose|j: int|
                0 <= j < before.len() && #[trigger] work_of(before[j]) == Some(works_of(before)[k]);
            assert(work_of(entries[j]) == Some(works_of(entries)[k]));
        } else {
            assert(work_of(entries[entries.len() - 1]) == Some(works_of(entries)[k]));
        }
    }
}

// ---------------------------------------------------------------------------
// Requests
// ---------------------------------------------------------------------------

/// A statistic is asked for by its entity and its range, for as many entries as
/// are wanted, between one and the most there may be.
pub proof fn lemma_sitewide_requests(entity: Seq<char>, range: Seq<char>, n: nat)
    ensures
        1 <= n <= 100 ==> sitewide_query(entity, range, n as int) == "stats/sitewide/"@ + entity
            + "?range="@ + range + "&count="@ + decimal(n),
        n == 0 ==> sitewide_query(entity, range, n as int) == "stats/sitewide/"@ + entity
            + "?range="@ + range + "&count="@ + decimal(1),
        n > 100 ==> sitewide_query(entity, range, n as int) == "stats/sitewide/"@ + entity
            + "?range="@ + range + "&count="@ + decimal(100),
{
}

// ---------------------------------------------------------------------------
// What entries say
// ---------------------------------------------------------------------------

/// A popular work and a popular artist say what their fields hold, each field by
/// itself.
pub proof fn lemma_entries_say_their_fields(w: PopularWork, a: PopularArtist)
    ensures
        w@.release_group_mbid == w.release_group_mbid@ && w@.title == w.title@,
        w@.artist_name == w.artist_name@,
        w@.artist_mbid == opt_text(w.artist_mbid),
        w@.release_date == opt_text(w.release_date),
        w.caa is None ==> w@.caa is None,
        w.caa matches Some((release, id)) ==> w@.caa == Some((release@, id)),
        a@.artist_mbid == a.artist_mbid@ && a@.name == a.name@,
{
}

/// The works and the artists of a list are those of its entries, one to one and
/// in order.
pub proof fn lemma_lists_say_their_entries(
    works: Seq<PopularWork>,
    artists: Seq<PopularArtist>,
    i: int,
)
    ensures
        work_views(works).len() == works.len() && artist_views(artists).len() == artists.len(),
        0 <= i < works.len() ==> work_views(works)[i] == works[i]@,
        0 <= i < artists.len() ==> artist_views(artists)[i] == artists[i]@,
{
}

/// Of several names for a field, the first that the entry has a text under
/// decides, and what it says is the field: without the white space around it, or
/// nothing where it is blank. Where the entry has a text under none of them, it
/// says nothing.
pub proof fn lemma_the_first_text_decides(entry: JsonTree, names: Seq<Seq<char>>, i: int)
    requires
        0 <= i <= names.len(),
        i < names.len() ==> entry.text_of(names[i]) is Some,
        forall|j: int| 0 <= j < i ==> entry.text_of(#[trigger] names[j]) is None,
    ensures
        i == names.len() ==> picked(entry, names) is None,
        i < names.len() ==> {
            let said = entry.text_of(names[i])->0;
            &&& is_blank(said) ==> picked(entry, names) is None
            &&& !is_blank(said) ==> picked(entry, names) == Some(trimmed(said))
        },
    decreases names.len(),
{
    if i > 0 {
        let rest = names.drop_first();
        assert(entry.text_of(names[0]) is None);
        assert forall|j: int| 0 <= j < i - 1 implies entry.text_of(#[trigger] rest[j]) is None by {
            assert(rest[j] == names[j + 1]);
        }
        lemma_the_first_text_decides(entry, rest, i - 1);
    }
}

} // verus!
