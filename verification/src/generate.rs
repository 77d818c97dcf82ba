//! One feed document for each format that a show declares and at least one episode
//! supplies.

use vstd::prelude::*;
use crate::assemble::{assemble_header, assemble_item, header_of, item_of};
use crate::feed::{FeedDocument, FeedDocumentView, FeedItem, FeedItemView};
use crate::route::{
    accepted_entry, episode_without, format_of, formats_before, is_first_of_format,
    lemma_accepted_declared, lemma_duplicate_reported, lemma_formats_before_step,
    lemma_route_without_file, lemma_unsupported_reported, never_accepted, outcome_at, route,
    routed, routing_of, AcceptedView, OutcomeView, Rejection, RejectionKind, RejectionView,
    Routing,
};
use crate::show::{EpisodeView, Podcast, PodcastView};
use crate::text::{holds, position, views};

verus! {

/// The documents of a show, and the files that were passed over on the way.
#[derive(Debug, PartialEq, Eq)]
pub struct Generated {
    pub documents: Vec<FeedDocument>,
    pub rejections: Vec<Rejection>,
}

/// What a [`Generated`] holds, as text.
pub struct GeneratedView {
    pub documents: Seq<FeedDocumentView>,
    pub rejections: Seq<RejectionView>,
}

impl View for Generated {
    type V = GeneratedView;

    open spec fn view(&self) -> GeneratedView {
        GeneratedView { documents: views(self.documents@), rejections: views(self.rejections@) }
    }
}

/// The first `k` formats of a list without repetitions, each at the place of its first
/// occurrence.
pub open spec fn distinct_upto(formats: Seq<Seq<char>>, k: nat) -> Seq<Seq<char>>
    decreases k,
{
    if k == 0 {
        Seq::empty()
    } else {
        let before = distinct_upto(formats, (k - 1) as nat);
        if before.contains(formats[k - 1]) {
            before
        } else {
            before.push(formats[k - 1])
        }
    }
}

/// The formats of a list without repetitions, each at the place of its first occurrence.
pub open spec fn distinct(formats: Seq<Seq<char>>) -> Seq<Seq<char>> {
    distinct_upto(formats, formats.len())
}

/// The entries that the accepted files of one episode give to the document of `format`,
/// in the order of the files.
pub open spec fn items_from(
    show: PodcastView,
    episode: EpisodeView,
    accepted: Seq<AcceptedView>,
    format: Seq<char>,
) -> Seq<FeedItemView>
    decreases accepted.len(),
{
    if accepted.len() == 0 {
        Seq::empty()
    } else {
        let before = items_from(show, episode, accepted.drop_last(), format);
        if accepted.last().format == format {
            before.push(item_of(show, episode, accepted.last()))
        } else {
            before
        }
    }
}

/// The entries that one episode gives to the document of `format`.
pub open spec fn episode_items(
    show: PodcastView,
    episode: EpisodeView,
    format: Seq<char>,
) -> Seq<FeedItemView> {
    items_from(
        show,
        episode,
        routing_of(episode, show.declared(), show.hosting_base_url).accepted,
        format,
    )
}

/// The entries that the first `n` episodes give to the document of `format`, episode by
/// episode.
pub open spec fn items_upto(show: PodcastView, format: Seq<char>, n: nat) -> Seq<FeedItemView>
    decreases n,
{
    if n == 0 {
        Seq::empty()
    } else {
        items_upto(show, format, (n - 1) as nat) + episode_items(
            show,
            show.episodes[n - 1],
            format,
        )
    }
}

/// The entries of the document of `format`.
pub open spec fn items_for(show: PodcastView, format: Seq<char>) -> Seq<FeedItemView> {
    items_upto(show, format, show.episodes.len())
}

/// The files passed over in the first `n` episodes, episode by episode.
pub open spec fn rejections_upto(show: PodcastView, n: nat) -> Seq<RejectionView>
    decreases n,
{
    if n == 0 {
        Seq::empty()
    } else {
        rejections_upto(show, (n - 1) as nat) + routing_of(
            show.episodes[n - 1],
            show.declared(),
            show.hosting_base_url,
        ).rejections
    }
}

/// The document of `format`.
pub open spec fn document_of(show: PodcastView, format: Seq<char>) -> FeedDocumentView {
    FeedDocumentView { format, header: header_of(show), items: items_for(show, format) }
}

/// The documents of the first `k` of the formats `formats`: one for each format with at
/// least one entry.
pub open spec fn documents_upto(
    show: PodcastView,
    formats: Seq<Seq<char>>,
    k: nat,
) -> Seq<FeedDocumentView>
    decreases k,
{
    if k == 0 {
        Seq::empty()
    } else {
        let before = documents_upto(show, formats, (k - 1) as nat);
        if items_for(show, formats[k - 1]).len() > 0 {
            before.push(document_of(show, formats[k - 1]))
        } else {
            before
        }
    }
}

/// What a show yields: its documents, in the order in which the show first declares their
/// formats, and the files passed over, in the order of the episodes and their files.
pub open spec fn generated_of(show: PodcastView) -> GeneratedView {
    GeneratedView {
        documents: documents_upto(show, distinct(show.formats), distinct(show.formats).len()),
        rejections: rejections_upto(show, show.episodes.len()),
    }
}

/// A list without repetitions holds the formats of the list it was made from, each once.
pub proof fn lemma_distinct_upto(formats: Seq<Seq<char>>, k: nat)
    requires
        k <= formats.len(),
    ensures
        distinct_upto(formats, k).no_duplicates(),
        distinct_upto(formats, k).len() <= k,
        forall|f: Seq<char>|
            distinct_upto(formats, k).contains(f) <==> formats.take(k as int).contains(f),
    decreases k,
{
    if k > 0 {
        let before = distinct_upto(formats, (k - 1) as nat);
        let now = distinct_upto(formats, k);
        let last = formats[k - 1];
        lemma_distinct_upto(formats, (k - 1) as nat);
        let shorter = formats.take(k - 1);
        let longer = formats.take(k as int);
        assert forall|f: Seq<char>| now.contains(f) <==> longer.contains(f) by {
            if now.contains(f) {
                let i = choose|i: int| 0 <= i < now.len() && now[i] == f;
                if i < before.len() {
                    assert(before[i] == f);
                    assert(before.contains(f));
                    assert(shorter.contains(f));
                    let j = choose|j: int| 0 <= j < shorter.len() && shorter[j] == f;
                    assert(longer[j] == f);
                } else {
                    assert(longer[k - 1] == f);
                }
            }
            if longer.contains(f) {
                let j = choose|j: int| 0 <= j < longer.len() && longer[j] == f;
                if j < k - 1 {
                    assert(shorter[j] == f);
                    assert(before.contains(f));
                    let i = choose|i: int| 0 <= i < before.len() && before[i] == f;
                    assert(now[i] == f);
                } else if before.contains(last) {
                } else {
                    assert(now[before.len() as int] == f);
                }
            }
        }
    }
}

/// The formats of a list without repetitions are the formats of the list.
pub proof fn lemma_distinct(formats: Seq<Seq<char>>)
    ensures
        distinct(formats).no_duplicates(),
        distinct(formats).to_set() == formats.to_set(),
{
    lemma_distinct_upto(formats, formats.len());
    assert(formats.take(formats.len() as int) =~= formats);
    assert(distinct(formats).to_set() =~= formats.to_set());
}

/// The formats of `formats` without repetitions, each at the place of its first
/// occurrence.
fn distinct_formats(formats: &Vec<String>) -> (list: Vec<String>)
    ensures
        views(list@) == distinct(views(formats@)),
{
    let mut list: Vec<String> = Vec::new();
    let mut k: usize = 0;
    while k < formats.len()
        invariant
            k <= formats.len(),
            views(list@) == distinct_upto(views(formats@), k as nat),
        decreases formats.len() - k,
    {
        let ghost before = views(list@);
        if !holds(&list, &formats[k]) {
            list.push(formats[k].clone());
            assert(views(list@) =~= before.push(formats@[k as int]@));
        }
        k += 1;
    }
    list
}

/// Whether `slots` holds, for each of `formats` in order, the document of that format
/// with the entries of the first `n` episodes.
spec fn slots_hold(
    slots: Seq<FeedDocument>,
    show: PodcastView,
    formats: Seq<Seq<char>>,
    n: nat,
) -> bool {
    &&& slots.len() == formats.len()
    &&& forall|k: int|
        0 <= k < slots.len() ==> (#[trigger] slots[k])@ == (FeedDocumentView {
            format: formats[k],
            header: header_of(show),
            items: items_upto(show, formats[k], n),
        })
}

/// Whether `slots` holds, for each of `formats` in order, the document of that format
/// with the entries of the first `n` episodes and of the first `j` accepted files of the
/// next one.
spec fn slots_hold_within(
    slots: Seq<FeedDocument>,
    show: PodcastView,
    formats: Seq<Seq<char>>,
    n: nat,
    accepted: Seq<AcceptedView>,
    j: int,
) -> bool {
    &&& slots.len() == formats.len()
    &&& forall|k: int|
        0 <= k < slots.len() ==> (#[trigger] slots[k])@ == (FeedDocumentView {
            format: formats[k],
            header: header_of(show),
            items: items_upto(show, formats[k], n) + items_from(
                show,
                show.episodes[n as int],
                accepted.take(j),
                formats[k],
            ),
        })
}

/// One document without entries for each of `formats`.
fn open_slots(show: &Podcast, formats: &Vec<String>) -> (slots: Vec<FeedDocument>)
    ensures
        slots_hold(slots@, show@, views(formats@), 0),
{
    let header = assemble_header(show);
    let mut slots: Vec<FeedDocument> = Vec::new();
    let mut k: usize = 0;
    while k < formats.len()
        invariant
            k <= formats.len(),
            header@ == header_of(show@),
            slots_hold(slots@, show@, views(formats@).take(k as int), 0),
        decreases formats.len() - k,
    {
        let document = FeedDocument {
            format: formats[k].clone(),
            header: header.clone(),
            items: Vec::new(),
        };
        assert(views(document.items@) =~= Seq::<FeedItemView>::empty());
        slots.push(document);
        k += 1;
    }
    assert(views(formats@).take(k as int) =~= views(formats@));
    slots
}

/// Adds the entries of episode `n` to the documents of their formats.
fn add_episode(
    slots: &mut Vec<FeedDocument>,
    show: &Podcast,
    formats: &Vec<String>,
    n: usize,
    routing: &Routing,
)
    requires
        n < show.episodes.len(),
        views(formats@).no_duplicates(),
        views(formats@).to_set() == show@.declared(),
        routing@ == routing_of(show@.episodes[n as int], show@.declared(), show@.hosting_base_url),
        slots_hold(old(slots)@, show@, views(formats@), n as nat),
    ensures
        slots_hold(final(slots)@, show@, views(formats@), (n + 1) as nat),
{
    let ghost accepted = routing@.accepted;
    let ghost episode = show@.episodes[n as int];
    let mut j: usize = 0;
    assert(accepted.take(0) =~= Seq::<AcceptedView>::empty());
    assert forall|k: int| 0 <= k < slots.len() implies items_upto(
        show@,
        views(formats@)[k],
        n as nat,
    ) + Seq::<FeedItemView>::empty() == items_upto(show@, views(formats@)[k], n as nat) by {
        assert(items_upto(show@, views(formats@)[k], n as nat) + Seq::<FeedItemView>::empty()
            =~= items_upto(show@, views(formats@)[k], n as nat));
    }
    while j < routing.accepted.len()
        invariant
            j <= routing.accepted.len(),
            n < show.episodes.len(),
            accepted == routing@.accepted,
            accepted == views(routing.accepted@),
            episode == show@.episodes[n as int],
            views(formats@).no_duplicates(),
            views(formats@).to_set() == show@.declared(),
            routing@ == routing_of(episode, show@.declared(), show@.hosting_base_url),
            slots_hold_within(slots@, show@, views(formats@), n as nat, accepted, j as int),
        decreases routing.accepted.len() - j,
    {
        let file = &routing.accepted[j];
        proof {
            lemma_accepted_declared(
                episode,
                show@.declared(),
                show@.hosting_base_url,
                episode.files.len(),
            );
            assert(show@.declared().contains(accepted[j as int].format));
            assert(views(formats@).contains(file.format@));
        }
        match position(formats, &file.format) {
            Some(place) => {
                let item = assemble_item(&show.episodes[n], file, show);
                let ghost before = slots@;
                slots[place].items.push(item);
                proof {
                    let now = accepted.take(j + 1);
                    assert(now.drop_last() =~= accepted.take(j as int));
                    assert(now.last() == file@);
                    assert forall|k: int| 0 <= k < slots.len() implies (#[trigger] slots@[k])@
                        == (FeedDocumentView {
                        format: views(formats@)[k],
                        header: header_of(show@),
                        items: items_upto(show@, views(formats@)[k], n as nat) + items_from(
                            show@,
                            episode,
                            now,
                            views(formats@)[k],
                        ),
                    }) by {
                        let format = views(formats@)[k];
                        let earlier = items_upto(show@, format, n as nat);
                        let partial = items_from(show@, episode, accepted.take(j as int), format);
                        assert(before[k]@.items == earlier + partial);
                        if k == place {
                            assert(views(slots@[k].items@) =~= (earlier + partial).push(item@));
                            assert((earlier + partial).push(item@) =~= earlier + partial.push(
                                item@,
                            ));
                        } else {
                            assert(views(formats@)[k] != views(formats@)[place as int]);
                        }
                    }
                }
            },
            None => {
                assert(false);
            },
        }
        j += 1;
    }
    proof {
        assert(accepted.take(j as int) =~= accepted);
    }
}

/// The documents among `slots` that hold at least one entry, in order.
fn keep_filled(
    slots: Vec<FeedDocument>,
    Ghost(show): Ghost<PodcastView>,
    Ghost(formats): Ghost<Seq<Seq<char>>>,
) -> (documents: Vec<FeedDocument>)
    requires
        slots_hold(slots@, show, formats, show.episodes.len()),
    ensures
        views(documents@) == documents_upto(show, formats, formats.len()),
{
    let mut documents: Vec<FeedDocument> = Vec::new();
    for slot in it: slots
        invariant
            it.seq() == slots@,
            slots_hold(slots@, show, formats, show.episodes.len()),
            views(documents@) == documents_upto(show, formats, it.index() as nat),
    {
        let ghost before = views(documents@);
        assert(slot == slots@[it.index() as int]);
        if slot.items.len() > 0 {
            documents.push(slot);
            assert(views(documents@) =~= before.push(slot@));
        }
    }
    documents
}

/// The documents of the first `k` formats: each is the document of one of these formats,
/// has an entry, and stands alone for its format; and each of these formats with an entry
/// has its document.
pub proof fn lemma_documents_upto(show: PodcastView, formats: Seq<Seq<char>>, k: nat)
    requires
        k <= formats.len(),
        formats.no_duplicates(),
    ensures
        forall|i: int|
            0 <= i < documents_upto(show, formats, k).len() ==> {
                let document = #[trigger] documents_upto(show, formats, k)[i];
                &&& formats.take(k as int).contains(document.format)
                &&& document == document_of(show, document.format)
                &&& document.items.len() > 0
            },
        forall|i: int, j: int|
            0 <= i < j < documents_upto(show, formats, k).len() ==> documents_upto(
                show,
                formats,
                k,
            )[i].format != documents_upto(show, formats, k)[j].format,
        forall|m: int|
            0 <= m < k && items_for(show, #[trigger] formats[m]).len() > 0 ==> documents_upto(
                show,
                formats,
                k,
            ).contains(document_of(show, formats[m])),
    decreases k,
{
    if k > 0 {
        lemma_documents_upto(show, formats, (k - 1) as nat);
        let before = documents_upto(show, formats, (k - 1) as nat);
        let now = documents_upto(show, formats, k);
        let shorter = formats.take(k - 1);
        let longer = formats.take(k as int);
        let last = formats[k - 1];
        assert(longer[k - 1] == last);
        assert forall|i: int| 0 <= i < now.len() implies {
            let document = #[trigger] now[i];
            &&& longer.contains(document.format)
            &&& document == document_of(show, document.format)
            &&& document.items.len() > 0
        } by {
            if i < before.len() {
                assert(now[i] == before[i]);
                let at = choose|at: int| 0 <= at < shorter.len() && shorter[at] == before[i].format;
                assert(longer[at] == before[i].format);
            }
        }
        assert forall|i: int, j: int| 0 <= i < j < now.len() implies now[i].format
            != now[j].format by {
            assert(now[i] == before[i]);
            if j < before.len() {
                assert(now[j] == before[j]);
            } else {
                let at = choose|at: int| 0 <= at < shorter.len() && shorter[at] == before[i].format;
                assert(formats[at] != formats[k - 1]);
            }
        }
        assert forall|m: int|
            0 <= m < k && items_for(show, #[trigger] formats[m]).len() > 0 implies now.contains(
            document_of(show, formats[m]),
        ) by {
            if m < k - 1 {
                let i = choose|i: int|
                    0 <= i < before.len() && before[i] == document_of(show, formats[m]);
                assert(now[i] == before[i]);
            } else {
                assert(now[now.len() - 1] == document_of(show, formats[m]));
            }
        }
    }
}

/// Every document of a show has a format that the show declares and at least one entry;
/// no two documents have the same format; and every declared format to which an episode
/// gives an entry has its document.
pub proof fn lemma_documents(show: PodcastView)
    ensures
        forall|i: int|
            0 <= i < generated_of(show).documents.len() ==> {
                let document = #[trigger] generated_of(show).documents[i];
                &&& show.declared().contains(document.format)
                &&& document == document_of(show, document.format)
                &&& document.items.len() > 0
            },
        forall|i: int, j: int|
            0 <= i < j < generated_of(show).documents.len() ==> generated_of(
                show,
            ).documents[i].format != generated_of(show).documents[j].format,
        forall|format: Seq<char>|
            show.declared().contains(format) && items_for(show, format).len() > 0
                ==> generated_of(show).documents.contains(#[trigger] document_of(show, format)),
{
    let formats = distinct(show.formats);
    lemma_distinct(show.formats);
    lemma_documents_upto(show, formats, formats.len());
    assert(formats.take(formats.len() as int) =~= formats);
    assert forall|format: Seq<char>|
        show.declared().contains(format) && items_for(show, format).len()
            > 0 implies generated_of(show).documents.contains(
        #[trigger] document_of(show, format),
    ) by {
        assert(formats.to_set().contains(format));
        let m = choose|m: int| 0 <= m < formats.len() && formats[m] == format;
        assert(items_for(show, formats[m]).len() > 0);
    }
    assert forall|i: int| 0 <= i < generated_of(show).documents.len() implies {
        let document = #[trigger] generated_of(show).documents[i];
        show.declared().contains(document.format)
    } by {
        let document = generated_of(show).documents[i];
        assert(formats.contains(document.format));
        assert(formats.to_set().contains(document.format));
    }
}

/// Builds the documents of a show: one for each format that the show declares and for
/// which at least one episode has an accepted file, in the order in which the show first
/// declares the formats. The entries of a document follow the order of the episodes.
/// Every file that gives no entry is reported, in the order of the episodes and their
/// files; none of them stops the others.
pub fn generate_xmls(show: &Podcast) -> (generated: Generated)
    ensures
        generated@ == generated_of(show@),
        forall|i: int|
            0 <= i < generated.documents.len() ==> show@.declared().contains(
                (#[trigger] generated.documents[i]).format@,
            ) && generated.documents[i].items.len() > 0,
        forall|i: int, j: int|
            0 <= i < j < generated.documents.len() ==> generated.documents[i].format@
                != generated.documents[j].format@,
{
    let formats = distinct_formats(&show.formats);
    proof {
        lemma_distinct(show@.formats);
    }
    let mut slots = open_slots(show, &formats);
    let mut rejections: Vec<Rejection> = Vec::new();
    let mut n: usize = 0;
    while n < show.episodes.len()
        invariant
            n <= show.episodes.len(),
            views(formats@) == distinct(show@.formats),
            views(formats@).no_duplicates(),
            views(formats@).to_set() == show@.declared(),
            slots_hold(slots@, show@, views(formats@), n as nat),
            views(rejections@) == rejections_upto(show@, n as nat),
        decreases show.episodes.len() - n,
    {
        let mut routing = route(&show.episodes[n], &show.formats, show.hosting_base_url.as_str());
        add_episode(&mut slots, show, &formats, n, &routing);
        let ghost before = views(rejections@);
        let ghost passed = routing@.rejections;
        rejections.append(&mut routing.rejections);
        assert(views(rejections@) =~= before + passed);
        n += 1;
    }
    let documents = keep_filled(slots, Ghost(show@), Ghost(views(formats@)));
    let generated = Generated { documents, rejections };
    proof {
        lemma_documents(show@);
        assert forall|i: int| 0 <= i < generated.documents.len() implies show@.declared().contains(
            (#[trigger] generated.documents[i]).format@,
        ) && generated.documents[i].items.len() > 0 by {
            assert(generated@.documents[i] == generated.documents[i]@);
        }
        assert forall|i: int, j: int|
            0 <= i < j < generated.documents.len() implies generated.documents[i].format@
            != generated.documents[j].format@ by {
            assert(generated@.documents[i] == generated.documents[i]@);
            assert(generated@.documents[j] == generated.documents[j]@);
        }
    }
    generated
}

/// The entries that the first `n` files of an episode give to the document of `format`:
/// one, for the first file of that format, where the show declares the format and one of
/// these files has it; none otherwise.
proof fn lemma_items_below(show: PodcastView, episode: EpisodeView, format: Seq<char>, n: nat)
    requires
        n <= episode.files.len(),
    ensures
        ({
            let accepted = routed(episode, show.declared(), show.hosting_base_url, n).accepted;
            let items = items_from(show, episode, accepted, format);
            if show.declared().contains(format) && formats_before(episode.files, n as int).contains(
                format,
            ) {
                exists|i: int|
                    i < n && #[trigger] is_first_of_format(episode.files, format, i) && items
                        == seq![
                        item_of(
                            show,
                            episode,
                            accepted_entry(show.hosting_base_url, episode.files[i]),
                        ),
                    ]
            } else {
                items == Seq::<FeedItemView>::empty()
            }
        }),
    decreases n,
{
    let declared = show.declared();
    let base = show.hosting_base_url;
    let files = episode.files;
    if n > 0 {
        lemma_items_below(show, episode, format, (n - 1) as nat);
        let before = routed(episode, declared, base, (n - 1) as nat).accepted;
        let now = routed(episode, declared, base, n).accepted;
        let file = files[n - 1];
        lemma_formats_before_step(files, n - 1);
        match outcome_at(episode, declared, base, n - 1) {
            OutcomeView::Accepted(a) => {
                assert(now.drop_last() =~= before);
                assert(now.last() == a);
                if a.format == format {
                    assert(is_first_of_format(files, format, n - 1));
                    assert(items_from(show, episode, now, format) =~= seq![
                        item_of(show, episode, accepted_entry(base, files[n - 1])),
                    ]);
                } else {
                    if declared.contains(format) && formats_before(files, n as int).contains(
                        format,
                    ) {
                        let i = choose|i: int|
                            i < n - 1 && #[trigger] is_first_of_format(files, format, i)
                                && items_from(show, episode, before, format) == seq![
                                item_of(show, episode, accepted_entry(base, files[i])),
                            ];
                        assert(i < n && is_first_of_format(files, format, i));
                    }
                }
            },
            OutcomeView::Rejected(r) => {
                assert(now == before);
                if declared.contains(format) && formats_before(files, n as int).contains(format) {
                    let i = choose|i: int|
                        i < n - 1 && #[trigger] is_first_of_format(files, format, i) && items_from(
                            show,
                            episode,
                            before,
                            format,
                        ) == seq![item_of(show, episode, accepted_entry(base, files[i]))];
                    assert(i < n && is_first_of_format(files, format, i));
                }
            },
        }
    }
}

/// An episode gives exactly one entry to the document of a format that the show declares
/// and that a file of the episode has: the entry of the first such file.
pub proof fn lemma_first_file_gives_the_item(
    show: PodcastView,
    episode: EpisodeView,
    format: Seq<char>,
    i: int,
)
    requires
        show.declared().contains(format),
        is_first_of_format(episode.files, format, i),
    ensures
        episode_items(show, episode, format) == seq![
            item_of(show, episode, accepted_entry(show.hosting_base_url, episode.files[i])),
        ],
{
    let files = episode.files;
    lemma_items_below(show, episode, format, files.len());
    assert(formats_before(files, files.len() as int).contains(format));
    let first = choose|first: int|
        first < files.len() && #[trigger] is_first_of_format(files, format, first)
            && episode_items(show, episode, format) == seq![
            item_of(show, episode, accepted_entry(show.hosting_base_url, files[first])),
        ];
    if first < i {
        assert(formats_before(files, i).contains(format));
    } else if i < first {
        assert(formats_before(files, first).contains(format));
    }
}

/// An episode gives no entry to the document of a format that the show does not declare,
/// or that no file of the episode has.
pub proof fn lemma_no_file_gives_no_item(show: PodcastView, episode: EpisodeView, format: Seq<char>)
    requires
        !show.declared().contains(format) || !formats_before(
            episode.files,
            episode.files.len() as int,
        ).contains(format),
    ensures
        episode_items(show, episode, format) == Seq::<FeedItemView>::empty(),
{
    lemma_items_below(show, episode, format, episode.files.len());
}

/// What an episode of the show gives to a format stands among the entries of that format,
/// and the files of the episode that are passed over stand among those of the show.
pub proof fn lemma_episode_is_gathered(show: PodcastView, format: Seq<char>, e: int, n: nat)
    requires
        0 <= e < n <= show.episodes.len(),
    ensures
        forall|item: FeedItemView|
            episode_items(show, show.episodes[e], format).contains(item) ==> items_upto(
                show,
                format,
                n,
            ).contains(item),
        forall|rejection: RejectionView|
            routing_of(
                show.episodes[e],
                show.declared(),
                show.hosting_base_url,
            ).rejections.contains(rejection) ==> rejections_upto(show, n).contains(rejection),
    decreases n,
{
    let last_items = episode_items(show, show.episodes[n - 1], format);
    let last_rejections = routing_of(
        show.episodes[n - 1],
        show.declared(),
        show.hosting_base_url,
    ).rejections;
    let items_before = items_upto(show, format, (n - 1) as nat);
    let rejections_before = rejections_upto(show, (n - 1) as nat);
    if e < n - 1 {
        lemma_episode_is_gathered(show, format, e, (n - 1) as nat);
    }
    assert forall|item: FeedItemView|
        episode_items(show, show.episodes[e], format).contains(item) implies items_upto(
        show,
        format,
        n,
    ).contains(item) by {
        if e < n - 1 {
            assert(items_before.contains(item));
            let k = choose|k: int| 0 <= k < items_before.len() && items_before[k] == item;
            assert((items_before + last_items)[k] == item);
        } else {
            let k = choose|k: int| 0 <= k < last_items.len() && last_items[k] == item;
            assert((items_before + last_items)[items_before.len() + k] == item);
        }
    }
    assert forall|rejection: RejectionView|
        routing_of(
            show.episodes[e],
            show.declared(),
            show.hosting_base_url,
        ).rejections.contains(rejection) implies rejections_upto(show, n).contains(rejection) by {
        if e < n - 1 {
            assert(rejections_before.contains(rejection));
            let k = choose|k: int|
                0 <= k < rejections_before.len() && rejections_before[k] == rejection;
            assert((rejections_before + last_rejections)[k] == rejection);
        } else {
            let k = choose|k: int| 0 <= k < last_rejections.len() && last_rejections[k] == rejection;
            assert((rejections_before + last_rejections)[rejections_before.len() + k]
                == rejection);
        }
    }
}

/// Of two files of an episode with the same format, which the show declares, the first
/// alone gives the entry of the episode for that format: the entry stands in the document
/// of the format, which the show has. The second is reported as a duplicate.
pub proof fn lemma_first_of_two_wins(show: PodcastView, e: int, format: Seq<char>, i: int, j: int)
    requires
        0 <= e < show.episodes.len(),
        show.declared().contains(format),
        is_first_of_format(show.episodes[e].files, format, i),
        i < j < show.episodes[e].files.len(),
        format_of(show.episodes[e].files[j]) == Some(format),
    ensures
        ({
            let episode = show.episodes[e];
            let item = item_of(
                show,
                episode,
                accepted_entry(show.hosting_base_url, episode.files[i]),
            );
            &&& episode_items(show, episode, format) == seq![item]
            &&& generated_of(show).documents.contains(document_of(show, format))
            &&& document_of(show, format).items.contains(item)
            &&& generated_of(show).rejections.contains(
                RejectionView {
                    kind: RejectionKind::DuplicateFormat,
                    episode: episode.title,
                    file: episode.files[j],
                    format,
                },
            )
        }),
{
    let episode = show.episodes[e];
    let item = item_of(show, episode, accepted_entry(show.hosting_base_url, episode.files[i]));
    lemma_first_file_gives_the_item(show, episode, format, i);
    lemma_duplicate_reported(episode, show.declared(), show.hosting_base_url, i, j, format);
    lemma_episode_is_gathered(show, format, e, show.episodes.len());
    assert(seq![item][0] == item);
    assert(episode_items(show, episode, format).contains(item));
    assert(items_for(show, format).contains(item));
    lemma_documents(show);
}

/// No episode gives an entry to the document of a format that the show does not declare.
pub proof fn lemma_undeclared_has_no_items(show: PodcastView, format: Seq<char>, n: nat)
    requires
        !show.declared().contains(format),
    ensures
        items_upto(show, format, n) == Seq::<FeedItemView>::empty(),
    decreases n,
{
    if n > 0 {
        lemma_undeclared_has_no_items(show, format, (n - 1) as nat);
        lemma_no_file_gives_no_item(show, show.episodes[n - 1], format);
    }
}

/// A file whose format the show does not declare gives no entry: no accepted file of its
/// episode has its name, the show has no entry and no document for its format, and the
/// file is reported as unsupported, by its name and its format.
pub proof fn lemma_undeclared_file_is_passed_over(
    show: PodcastView,
    e: int,
    i: int,
    format: Seq<char>,
)
    requires
        0 <= e < show.episodes.len(),
        0 <= i < show.episodes[e].files.len(),
        format_of(show.episodes[e].files[i]) == Some(format),
        !show.declared().contains(format),
    ensures
        forall|k: int|
            0 <= k < routing_of(
                show.episodes[e],
                show.declared(),
                show.hosting_base_url,
            ).accepted.len() ==> (#[trigger] routing_of(
                show.episodes[e],
                show.declared(),
                show.hosting_base_url,
            ).accepted[k]).file != show.episodes[e].files[i],
        items_for(show, format) == Seq::<FeedItemView>::empty(),
        forall|k: int|
            0 <= k < generated_of(show).documents.len() ==> (#[trigger] generated_of(
                show,
            ).documents[k]).format != format,
        generated_of(show).rejections.contains(
            RejectionView {
                kind: RejectionKind::UnsupportedFormat,
                episode: show.episodes[e].title,
                file: show.episodes[e].files[i],
                format,
            },
        ),
{
    let episode = show.episodes[e];
    lemma_undeclared_has_no_items(show, format, show.episodes.len());
    lemma_documents(show);
    lemma_unsupported_reported(episode, show.declared(), show.hosting_base_url, i, format);
    lemma_episode_is_gathered(show, format, e, show.episodes.len());
}

/// A show without the file at position `i` of its episode `e`.
pub open spec fn show_without(show: PodcastView, e: int, i: int) -> PodcastView {
    PodcastView {
        episodes: show.episodes.update(e, episode_without(show.episodes[e], i)),
        ..show
    }
}

/// Accepted files give the same entries in two shows and episodes that give the same
/// entry for every file.
proof fn lemma_items_from_agree(
    show: PodcastView,
    episode: EpisodeView,
    other_show: PodcastView,
    other_episode: EpisodeView,
    accepted: Seq<AcceptedView>,
    format: Seq<char>,
)
    requires
        forall|a: AcceptedView| #[trigger]
            item_of(show, episode, a) == item_of(other_show, other_episode, a),
    ensures
        items_from(show, episode, accepted, format) == items_from(
            other_show,
            other_episode,
            accepted,
            format,
        ),
    decreases accepted.len(),
{
    if accepted.len() > 0 {
        lemma_items_from_agree(
            show,
            episode,
            other_show,
            other_episode,
            accepted.drop_last(),
            format,
        );
    }
}

/// The entries of a format are the same without a file that can never be accepted.
proof fn lemma_items_without_file(show: PodcastView, e: int, i: int, format: Seq<char>, n: nat)
    requires
        0 <= e < show.episodes.len(),
        0 <= i < show.episodes[e].files.len(),
        never_accepted(show.episodes[e].files[i], show.declared()),
        n <= show.episodes.len(),
    ensures
        items_upto(show_without(show, e, i), format, n) == items_upto(show, format, n),
    decreases n,
{
    if n > 0 {
        lemma_items_without_file(show, e, i, format, (n - 1) as nat);
        let other = show_without(show, e, i);
        let episode = show.episodes[n - 1];
        let other_episode = other.episodes[n - 1];
        if n - 1 == e {
            lemma_route_without_file(episode, show.declared(), show.hosting_base_url, i);
        }
        lemma_items_from_agree(
            other,
            other_episode,
            show,
            episode,
            routing_of(other_episode, other.declared(), other.hosting_base_url).accepted,
            format,
        );
    }
}

/// The documents of the first `k` formats are the same without a file that can never be
/// accepted.
proof fn lemma_documents_without_file(
    show: PodcastView,
    e: int,
    i: int,
    formats: Seq<Seq<char>>,
    k: nat,
)
    requires
        0 <= e < show.episodes.len(),
        0 <= i < show.episodes[e].files.len(),
        never_accepted(show.episodes[e].files[i], show.declared()),
        k <= formats.len(),
    ensures
        documents_upto(show_without(show, e, i), formats, k) == documents_upto(show, formats, k),
    decreases k,
{
    if k > 0 {
        lemma_documents_without_file(show, e, i, formats, (k - 1) as nat);
        lemma_items_without_file(show, e, i, formats[k - 1], show.episodes.len());
    }
}

/// A file that has no format, or whose format the show does not declare, changes no
/// document: the show without the file has the same documents.
pub proof fn lemma_passed_over_file_changes_no_document(show: PodcastView, e: int, i: int)
    requires
        0 <= e < show.episodes.len(),
        0 <= i < show.episodes[e].files.len(),
        never_accepted(show.episodes[e].files[i], show.declared()),
    ensures
        generated_of(show_without(show, e, i)).documents == generated_of(show).documents,
{
    let formats = distinct(show.formats);
    lemma_documents_without_file(show, e, i, formats, formats.len());
}

} // verus!
