//! Routing the files of one episode to the formats that a show declares.

use vstd::prelude::*;
use crate::show::{Episode, EpisodeView};
use crate::text::{followed, holds, views};

verus! {

/// Whether position `i` of `name` holds the last full stop of `name`.
pub open spec fn is_last_dot(name: Seq<char>, i: int) -> bool {
    &&& 0 <= i < name.len()
    &&& name[i] == '.'
    &&& forall|j: int| i < j < name.len() ==> name[j] != '.'
}

/// The format identifier of a file name: what follows its last full stop. A name without
/// a full stop has none.
pub open spec fn format_of(name: Seq<char>) -> Option<Seq<char>> {
    if exists|i: int| is_last_dot(name, i) {
        Some(name.skip((choose|i: int| is_last_dot(name, i)) + 1))
    } else {
        None
    }
}

/// The last full stop of a name decides its format identifier.
pub proof fn lemma_format_after_last_dot(name: Seq<char>, i: int)
    requires
        is_last_dot(name, i),
    ensures
        format_of(name) == Some(name.skip(i + 1)),
{
    let c = choose|k: int| is_last_dot(name, k);
    assert(is_last_dot(name, c));
    assert(c == i) by {
        if c < i {
            assert(name[i] != '.');
        } else if i < c {
            assert(name[c] != '.');
        }
    }
}

/// A name has a format identifier exactly when it holds a full stop, and the identifier
/// itself holds none.
pub proof fn lemma_format_of(name: Seq<char>)
    ensures
        format_of(name) is Some <==> name.contains('.'),
        format_of(name) matches Some(f) ==> !f.contains('.'),
{
    if name.contains('.') {
        let last = last_dot_below(name, name.len() as int);
        lemma_last_dot_below(name, name.len() as int);
        let some = choose|k: int| 0 <= k < name.len() && name[k] == '.';
        assert(last >= 0) by {
            if last < 0 {
                assert(name[some] != '.');
            }
        }
        lemma_format_after_last_dot(name, last);
        let f = name.skip(last + 1);
        if f.contains('.') {
            let k = choose|k: int| 0 <= k < f.len() && f[k] == '.';
            assert(name[last + 1 + k] == '.');
        }
    } else {
        if exists|i: int| is_last_dot(name, i) {
            let i = choose|i: int| is_last_dot(name, i);
            assert(name[i] == '.');
        }
    }
}

/// The position of the last full stop among the first `n` characters of `name`, or -1
/// where there is none.
spec fn last_dot_below(name: Seq<char>, n: int) -> int
    decreases n,
{
    if n <= 0 {
        -1
    } else if name[n - 1] == '.' {
        n - 1
    } else {
        last_dot_below(name, n - 1)
    }
}

/// What `last_dot_below` finds is a full stop, and no full stop follows it.
proof fn lemma_last_dot_below(name: Seq<char>, n: int)
    requires
        0 <= n <= name.len(),
    ensures
        -1 <= last_dot_below(name, n) < n,
        last_dot_below(name, n) >= 0 ==> name[last_dot_below(name, n)] == '.',
        forall|j: int| last_dot_below(name, n) < j < n ==> name[j] != '.',
    decreases n,
{
    if n > 0 && name[n - 1] != '.' {
        lemma_last_dot_below(name, n - 1);
    }
}

/// The format identifier of a file name, if it has one.
pub fn file_format(name: &str) -> (format: Option<String>)
    ensures
        match format {
            Some(f) => format_of(name@) == Some(f@),
            None => format_of(name@) is None,
        },
{
    let len = name.unicode_len();
    let mut last: Option<usize> = None;
    let mut n: usize = 0;
    for c in it: name.chars()
        invariant
            it.seq() == name@,
            n == it.index(),
            len == name@.len(),
            match last {
                Some(p) => p < n && name@[p as int] == '.' && forall|j: int|
                    p < j < n ==> name@[j] != '.',
                None => forall|j: int| 0 <= j < n ==> name@[j] != '.',
            },
    {
        if c == '.' {
            last = Some(n);
        }
        n += 1;
    }
    match last {
        Some(p) => {
            proof {
                lemma_format_after_last_dot(name@, p as int);
            }
            Some(name.substring_char(p + 1, len).to_string())
        },
        None => {
            proof {
                lemma_format_of(name@);
                if name@.contains('.') {
                    let k = choose|k: int| 0 <= k < name@.len() && name@[k] == '.';
                    assert(name@[k] != '.');
                }
            }
            None
        },
    }
}

/// Why a file of an episode yields no feed entry.
#[derive(Clone, Copy, Debug, PartialEq, Eq, Structural)]
pub enum RejectionKind {
    /// The file name has no full stop, so it names no format.
    MalformedFileName,
    /// The show does not declare the format of the file.
    UnsupportedFormat,
    /// An earlier file of the episode already has the format.
    DuplicateFormat,
}

/// A file of an episode that feeds the document of its format.
#[derive(Debug, PartialEq, Eq)]
pub struct Accepted {
    pub format: String,
    pub file: String,
    pub url: String,
}

/// A file of an episode that was passed over, with the reason.
#[derive(Debug, PartialEq, Eq)]
pub struct Rejection {
    pub kind: RejectionKind,
    pub episode: String,
    pub file: String,
    pub format: String,
}

/// What became of one file of an episode.
#[derive(Debug, PartialEq, Eq)]
pub enum Outcome {
    Accepted(Accepted),
    Rejected(Rejection),
}

/// The files of one episode, parted into those accepted and those passed over; each part
/// keeps the order of the files.
#[derive(Debug, PartialEq, Eq)]
pub struct Routing {
    pub accepted: Vec<Accepted>,
    pub rejections: Vec<Rejection>,
}

/// What an [`Accepted`] holds, as text.
pub struct AcceptedView {
    pub format: Seq<char>,
    pub file: Seq<char>,
    pub url: Seq<char>,
}

/// What a [`Rejection`] holds, as text.
pub struct RejectionView {
    pub kind: RejectionKind,
    pub episode: Seq<char>,
    pub file: Seq<char>,
    pub format: Seq<char>,
}

/// What an [`Outcome`] holds, as text.
pub enum OutcomeView {
    Accepted(AcceptedView),
    Rejected(RejectionView),
}

/// What a [`Routing`] holds, as text.
pub struct RoutingView {
    pub accepted: Seq<AcceptedView>,
    pub rejections: Seq<RejectionView>,
}

impl View for Accepted {
    type V = AcceptedView;

    open spec fn view(&self) -> AcceptedView {
        AcceptedView { format: self.format@, file: self.file@, url: self.url@ }
    }
}

impl View for Rejection {
    type V = RejectionView;

    open spec fn view(&self) -> RejectionView {
        RejectionView {
            kind: self.kind,
            episode: self.episode@,
            file: self.file@,
            format: self.format@,
        }
    }
}

impl View for Outcome {
    type V = OutcomeView;

    open spec fn view(&self) -> OutcomeView {
        match self {
            Outcome::Accepted(a) => OutcomeView::Accepted(a@),
            Outcome::Rejected(r) => OutcomeView::Rejected(r@),
        }
    }
}

impl View for Routing {
    type V = RoutingView;

    open spec fn view(&self) -> RoutingView {
        RoutingView { accepted: views(self.accepted@), rejections: views(self.rejections@) }
    }
}

/// The address under which a file is hosted: the base address, a slash, the file name.
pub open spec fn hosted_url(base: Seq<char>, file: Seq<char>) -> Seq<char> {
    base + seq!['/'] + file
}

/// Why a file is passed over, given the formats that the show declares and those that
/// earlier files of the episode have taken; `None` when the file is accepted.
pub open spec fn refusal(
    file: Seq<char>,
    declared: Set<Seq<char>>,
    taken: Set<Seq<char>>,
) -> Option<RejectionKind> {
    match format_of(file) {
        None => Some(RejectionKind::MalformedFileName),
        Some(f) => if !declared.contains(f) {
            Some(RejectionKind::UnsupportedFormat)
        } else if taken.contains(f) {
            Some(RejectionKind::DuplicateFormat)
        } else {
            None
        },
    }
}

/// The format that a report names: that of the file, or nothing where the file has none.
pub open spec fn reported_format(file: Seq<char>) -> Seq<char> {
    match format_of(file) {
        Some(f) => f,
        None => Seq::empty(),
    }
}

/// The entry of an accepted file: its format, its name and its hosted address.
pub open spec fn accepted_entry(base: Seq<char>, file: Seq<char>) -> AcceptedView {
    AcceptedView { format: reported_format(file), file, url: hosted_url(base, file) }
}

/// What becomes of one file of the episode called `episode`.
pub open spec fn outcome_of(
    episode: Seq<char>,
    file: Seq<char>,
    declared: Set<Seq<char>>,
    taken: Set<Seq<char>>,
    base: Seq<char>,
) -> OutcomeView {
    match refusal(file, declared, taken) {
        None => OutcomeView::Accepted(accepted_entry(base, file)),
        Some(kind) => OutcomeView::Rejected(
            RejectionView { kind, episode, file, format: reported_format(file) },
        ),
    }
}

/// Decides what becomes of one file of an episode: accepted where the show declares its
/// format and no earlier file of the episode has taken it, passed over with the reason
/// otherwise.
pub fn classify(
    episode: &str,
    file: &str,
    declared: &Vec<String>,
    taken: &Vec<String>,
    base: &str,
) -> (outcome: Outcome)
    ensures
        outcome@ == outcome_of(
            episode@,
            file@,
            views(declared@).to_set(),
            views(taken@).to_set(),
            base@,
        ),
{
    match file_format(file) {
        None => Outcome::Rejected(
            Rejection {
                kind: RejectionKind::MalformedFileName,
                episode: episode.to_string(),
                file: file.to_string(),
                format: String::new(),
            },
        ),
        Some(format) => {
            if !holds(declared, &format) {
                Outcome::Rejected(
                    Rejection {
                        kind: RejectionKind::UnsupportedFormat,
                        episode: episode.to_string(),
                        file: file.to_string(),
                        format,
                    },
                )
            } else if holds(taken, &format) {
                Outcome::Rejected(
                    Rejection {
                        kind: RejectionKind::DuplicateFormat,
                        episode: episode.to_string(),
                        file: file.to_string(),
                        format,
                    },
                )
            } else {
                let mut url = followed(base, "/");
                url.append(file);
                proof {
                    reveal_strlit("/");
                    assert("/"@ =~= seq!['/']);
                }
                Outcome::Accepted(Accepted { format, file: file.to_string(), url })
            }
        },
    }
}

/// The formats of the files of an episode that stand before position `i`.
pub open spec fn formats_before(files: Seq<Seq<char>>, i: int) -> Set<Seq<char>> {
    Set::new(
        |f: Seq<char>|
            exists|j: int| 0 <= j < i && j < files.len() && #[trigger] format_of(files[j]) == Some(f),
    )
}

/// Whether the file at position `i` is the first of its episode with the format `format`.
pub open spec fn is_first_of_format(files: Seq<Seq<char>>, format: Seq<char>, i: int) -> bool {
    &&& 0 <= i < files.len()
    &&& format_of(files[i]) == Some(format)
    &&& !formats_before(files, i).contains(format)
}

/// What becomes of the file at position `i` of an episode: the formats taken are those of
/// the files before it.
pub open spec fn outcome_at(
    episode: EpisodeView,
    declared: Set<Seq<char>>,
    base: Seq<char>,
    i: int,
) -> OutcomeView {
    outcome_of(
        episode.title,
        episode.files[i],
        declared,
        formats_before(episode.files, i),
        base,
    )
}

/// The routing of the first `n` files of an episode.
pub open spec fn routed(
    episode: EpisodeView,
    declared: Set<Seq<char>>,
    base: Seq<char>,
    n: nat,
) -> RoutingView
    decreases n,
{
    if n == 0 {
        RoutingView { accepted: Seq::empty(), rejections: Seq::empty() }
    } else {
        let before = routed(episode, declared, base, (n - 1) as nat);
        match outcome_at(episode, declared, base, n - 1) {
            OutcomeView::Accepted(a) => RoutingView {
                accepted: before.accepted.push(a),
                rejections: before.rejections,
            },
            OutcomeView::Rejected(r) => RoutingView {
                accepted: before.accepted,
                rejections: before.rejections.push(r),
            },
        }
    }
}

/// The routing of all files of an episode.
pub open spec fn routing_of(
    episode: EpisodeView,
    declared: Set<Seq<char>>,
    base: Seq<char>,
) -> RoutingView {
    routed(episode, declared, base, episode.files.len())
}

/// Routes the files of an episode, in their order: a file is accepted where the show
/// declares its format and it is the first of the episode with that format; every other
/// file is passed over and reported with the reason.
pub fn route(episode: &Episode, declared: &Vec<String>, base: &str) -> (routing: Routing)
    ensures
        routing@ == routing_of(episode@, views(declared@).to_set(), base@),
{
    let mut accepted: Vec<Accepted> = Vec::new();
    let mut rejections: Vec<Rejection> = Vec::new();
    let mut taken: Vec<String> = Vec::new();
    let ghost formats = views(declared@).to_set();
    let ghost files = episode@.files;
    let mut i: usize = 0;
    while i < episode.files.len()
        invariant
            i <= episode.files.len(),
            formats == views(declared@).to_set(),
            files == episode@.files,
            views(accepted@) == routed(episode@, formats, base@, i as nat).accepted,
            views(rejections@) == routed(episode@, formats, base@, i as nat).rejections,
            forall|f: Seq<char>| #[trigger]
                formats.contains(f) ==> (views(taken@).to_set().contains(f) <==> formats_before(
                    files,
                    i as int,
                ).contains(f)),
        decreases episode.files.len() - i,
    {
        let outcome = classify(
            episode.title.as_str(),
            episode.files[i].as_str(),
            declared,
            &taken,
            base,
        );
        let ghost file = files[i as int];
        assert(file == episode.files@[i as int]@);
        assert(outcome@ == outcome_at(episode@, formats, base@, i as int));
        let ghost old_taken = views(taken@);
        proof {
            lemma_formats_before_step(files, i as int);
        }
        match outcome {
            Outcome::Accepted(a) => {
                taken.push(a.format.clone());
                accepted.push(a);
                proof {
                    let f0 = a.format@;
                    assert(format_of(file) == Some(f0));
                    assert(views(taken@) =~= old_taken.push(f0));
                    assert(views(accepted@) =~= routed(
                        episode@,
                        formats,
                        base@,
                        (i + 1) as nat,
                    ).accepted);
                    assert forall|f: Seq<char>| #[trigger] formats.contains(f) implies (views(
                        taken@,
                    ).to_set().contains(f) <==> formats_before(files, i + 1).contains(f)) by {
                        lemma_push_contains(old_taken, f0, f);
                    }
                }
            },
            Outcome::Rejected(r) => {
                rejections.push(r);
                proof {
                    assert(views(rejections@) =~= routed(
                        episode@,
                        formats,
                        base@,
                        (i + 1) as nat,
                    ).rejections);
                    assert forall|f: Seq<char>| #[trigger] formats.contains(f) implies (views(
                        taken@,
                    ).to_set().contains(f) <==> formats_before(files, i + 1).contains(f)) by {
                        if format_of(file) == Some(f) {
                            assert(refusal(file, formats, old_taken.to_set()) == Some(
                                RejectionKind::DuplicateFormat,
                            ));
                        }
                    }
                }
            },
        }
        i += 1;
    }
    Routing { accepted, rejections }
}

/// A sequence with one more value holds what it held before, and that value.
proof fn lemma_push_contains(s: Seq<Seq<char>>, added: Seq<char>, f: Seq<char>)
    ensures
        s.push(added).to_set().contains(f) <==> (s.to_set().contains(f) || f == added),
{
    if s.push(added).contains(f) {
        let k = choose|k: int| 0 <= k < s.push(added).len() && s.push(added)[k] == f;
        if k < s.len() {
            assert(s[k] == f);
        }
    }
    if s.contains(f) {
        let k = choose|k: int| 0 <= k < s.len() && s[k] == f;
        assert(s.push(added)[k] == f);
    }
    if f == added {
        assert(s.push(added)[s.len() as int] == f);
    }
}

/// The formats before position `i + 1` are those before `i` and that of the file at `i`.
pub proof fn lemma_formats_before_step(files: Seq<Seq<char>>, i: int)
    requires
        0 <= i < files.len(),
    ensures
        forall|f: Seq<char>|
            formats_before(files, i + 1).contains(f) <==> (formats_before(files, i).contains(f)
                || format_of(files[i]) == Some(f)),
{
    assert forall|f: Seq<char>| formats_before(files, i + 1).contains(f) implies (formats_before(
        files,
        i,
    ).contains(f) || format_of(files[i]) == Some(f)) by {
        let j = choose|j: int|
            0 <= j < i + 1 && j < files.len() && #[trigger] format_of(files[j]) == Some(f);
        if j < i {
            assert(formats_before(files, i).contains(f));
        }
    }
    assert forall|f: Seq<char>|
        (formats_before(files, i).contains(f) || format_of(files[i]) == Some(
            f,
        )) implies formats_before(files, i + 1).contains(f) by {
        if formats_before(files, i).contains(f) {
            let j = choose|j: int|
                0 <= j < i && j < files.len() && #[trigger] format_of(files[j]) == Some(f);
            assert(0 <= j < i + 1 && format_of(files[j]) == Some(f));
        } else {
            assert(0 <= i < i + 1 && format_of(files[i]) == Some(f));
        }
    }
}

/// Every accepted file has a format that the show declares.
pub proof fn lemma_accepted_declared(
    episode: EpisodeView,
    declared: Set<Seq<char>>,
    base: Seq<char>,
    n: nat,
)
    ensures
        forall|i: int|
            0 <= i < routed(episode, declared, base, n).accepted.len() ==> declared.contains(
                #[trigger] routed(episode, declared, base, n).accepted[i].format,
            ),
    decreases n,
{
    if n > 0 {
        lemma_accepted_declared(episode, declared, base, (n - 1) as nat);
        let before = routed(episode, declared, base, (n - 1) as nat).accepted;
        let now = routed(episode, declared, base, n).accepted;
        assert forall|i: int| 0 <= i < now.len() implies declared.contains(
            #[trigger] now[i].format,
        ) by {
            if i < before.len() {
                assert(now[i] == before[i]);
            }
        }
    }
}

/// Whether `outcome` is what becomes of one of the first `n` files of an episode.
pub open spec fn is_outcome_below(
    episode: EpisodeView,
    declared: Set<Seq<char>>,
    base: Seq<char>,
    n: nat,
    outcome: OutcomeView,
) -> bool {
    exists|i: int| 0 <= i < n && #[trigger] outcome_at(episode, declared, base, i) == outcome
}

/// Every file of an episode has exactly one outcome: the accepted files and the reports
/// together are as many as the files, each file's outcome stands in its list, and each
/// entry of the two lists is the outcome of a file.
pub proof fn lemma_one_outcome_per_file(
    episode: EpisodeView,
    declared: Set<Seq<char>>,
    base: Seq<char>,
    n: nat,
)
    ensures
        routed(episode, declared, base, n).accepted.len() + routed(
            episode,
            declared,
            base,
            n,
        ).rejections.len() == n,
        forall|i: int|
            0 <= i < n ==> match #[trigger] outcome_at(episode, declared, base, i) {
                OutcomeView::Accepted(a) => routed(episode, declared, base, n).accepted.contains(
                    a,
                ),
                OutcomeView::Rejected(r) => routed(
                    episode,
                    declared,
                    base,
                    n,
                ).rejections.contains(r),
            },
        forall|k: int|
            0 <= k < routed(episode, declared, base, n).accepted.len() ==> is_outcome_below(
                episode,
                declared,
                base,
                n,
                OutcomeView::Accepted(#[trigger] routed(episode, declared, base, n).accepted[k]),
            ),
        forall|k: int|
            0 <= k < routed(episode, declared, base, n).rejections.len() ==> is_outcome_below(
                episode,
                declared,
                base,
                n,
                OutcomeView::Rejected(#[trigger] routed(episode, declared, base, n).rejections[k]),
            ),
    decreases n,
{
    if n > 0 {
        lemma_one_outcome_per_file(episode, declared, base, (n - 1) as nat);
        let before = routed(episode, declared, base, (n - 1) as nat);
        let now = routed(episode, declared, base, n);
        let last = outcome_at(episode, declared, base, n - 1);
        assert forall|i: int| 0 <= i < n implies match #[trigger] outcome_at(
            episode,
            declared,
            base,
            i,
        ) {
            OutcomeView::Accepted(a) => now.accepted.contains(a),
            OutcomeView::Rejected(r) => now.rejections.contains(r),
        } by {
            match outcome_at(episode, declared, base, i) {
                OutcomeView::Accepted(a) => {
                    if i < n - 1 {
                        let k = choose|k: int|
                            0 <= k < before.accepted.len() && before.accepted[k] == a;
                        assert(now.accepted[k] == a);
                    } else {
                        assert(now.accepted[now.accepted.len() - 1] == a);
                    }
                },
                OutcomeView::Rejected(r) => {
                    if i < n - 1 {
                        let k = choose|k: int|
                            0 <= k < before.rejections.len() && before.rejections[k] == r;
                        assert(now.rejections[k] == r);
                    } else {
                        assert(now.rejections[now.rejections.len() - 1] == r);
                    }
                },
            }
        }
        assert forall|k: int| 0 <= k < now.accepted.len() implies is_outcome_below(
            episode,
            declared,
            base,
            n,
            OutcomeView::Accepted(#[trigger] now.accepted[k]),
        ) by {
            if k < before.accepted.len() {
                assert(now.accepted[k] == before.accepted[k]);
                let i = choose|i: int|
                    0 <= i < n - 1 && #[trigger] outcome_at(episode, declared, base, i)
                        == OutcomeView::Accepted(before.accepted[k]);
                assert(outcome_at(episode, declared, base, i) == OutcomeView::Accepted(
                    now.accepted[k],
                ));
            } else {
                assert(last == OutcomeView::Accepted(now.accepted[k]));
            }
        }
        assert forall|k: int| 0 <= k < now.rejections.len() implies is_outcome_below(
            episode,
            declared,
            base,
            n,
            OutcomeView::Rejected(#[trigger] now.rejections[k]),
        ) by {
            if k < before.rejections.len() {
                assert(now.rejections[k] == before.rejections[k]);
                let i = choose|i: int|
                    0 <= i < n - 1 && #[trigger] outcome_at(episode, declared, base, i)
                        == OutcomeView::Rejected(before.rejections[k]);
                assert(outcome_at(episode, declared, base, i) == OutcomeView::Rejected(
                    now.rejections[k],
                ));
            } else {
                assert(last == OutcomeView::Rejected(now.rejections[k]));
            }
        }
    }
}

/// Where a file has a format that the show declares and an earlier file of the episode
/// has the same format, the later file is reported as a duplicate, by its name and its
/// format, and is not accepted.
pub proof fn lemma_duplicate_reported(
    episode: EpisodeView,
    declared: Set<Seq<char>>,
    base: Seq<char>,
    i: int,
    j: int,
    format: Seq<char>,
)
    requires
        0 <= i < j < episode.files.len(),
        format_of(episode.files[i]) == Some(format),
        format_of(episode.files[j]) == Some(format),
        declared.contains(format),
    ensures
        outcome_at(episode, declared, base, j) == OutcomeView::Rejected(
            RejectionView {
                kind: RejectionKind::DuplicateFormat,
                episode: episode.title,
                file: episode.files[j],
                format,
            },
        ),
        routing_of(episode, declared, base).rejections.contains(
            RejectionView {
                kind: RejectionKind::DuplicateFormat,
                episode: episode.title,
                file: episode.files[j],
                format,
            },
        ),
{
    assert(formats_before(episode.files, j).contains(format));
    lemma_one_outcome_per_file(episode, declared, base, episode.files.len());
    assert(outcome_at(episode, declared, base, j) is Rejected);
}

/// Where a file has a format that the show does not declare, the file is reported as
/// unsupported, by its name and its format, and no accepted file has its name or its
/// format.
pub proof fn lemma_unsupported_reported(
    episode: EpisodeView,
    declared: Set<Seq<char>>,
    base: Seq<char>,
    i: int,
    format: Seq<char>,
)
    requires
        0 <= i < episode.files.len(),
        format_of(episode.files[i]) == Some(format),
        !declared.contains(format),
    ensures
        outcome_at(episode, declared, base, i) == OutcomeView::Rejected(
            RejectionView {
                kind: RejectionKind::UnsupportedFormat,
                episode: episode.title,
                file: episode.files[i],
                format,
            },
        ),
        routing_of(episode, declared, base).rejections.contains(
            RejectionView {
                kind: RejectionKind::UnsupportedFormat,
                episode: episode.title,
                file: episode.files[i],
                format,
            },
        ),
        forall|k: int|
            0 <= k < routing_of(episode, declared, base).accepted.len() ==> {
                let a = #[trigger] routing_of(episode, declared, base).accepted[k];
                a.format != format && a.file != episode.files[i]
            },
{
    lemma_one_outcome_per_file(episode, declared, base, episode.files.len());
    assert(outcome_at(episode, declared, base, i) is Rejected);
    let accepted = routing_of(episode, declared, base).accepted;
    assert forall|k: int| 0 <= k < accepted.len() implies {
        let a = #[trigger] accepted[k];
        a.format != format && a.file != episode.files[i]
    } by {
        let m = choose|m: int|
            0 <= m < episode.files.len() && #[trigger] outcome_at(episode, declared, base, m)
                == OutcomeView::Accepted(accepted[k]);
        assert(format_of(accepted[k].file) == Some(accepted[k].format));
        assert(declared.contains(accepted[k].format));
    }
}

/// Whether a file can never be accepted: it has no format, or the show does not declare
/// its format.
pub open spec fn never_accepted(file: Seq<char>, declared: Set<Seq<char>>) -> bool {
    match format_of(file) {
        Some(format) => !declared.contains(format),
        None => true,
    }
}

/// An episode without the file at position `i`.
pub open spec fn episode_without(episode: EpisodeView, i: int) -> EpisodeView {
    EpisodeView { files: episode.files.remove(i), ..episode }
}

/// The files accepted among the first `n` of an episode without one file that can never
/// be accepted are those accepted among the same files of the whole episode.
proof fn lemma_accepted_without_file(
    episode: EpisodeView,
    declared: Set<Seq<char>>,
    base: Seq<char>,
    i: int,
    n: nat,
)
    requires
        0 <= i < episode.files.len(),
        never_accepted(episode.files[i], declared),
        n <= episode.files.len() - 1,
    ensures
        routed(episode_without(episode, i), declared, base, n).accepted == routed(
            episode,
            declared,
            base,
            if n <= i {
                n
            } else {
                (n + 1) as nat
            },
        ).accepted,
    decreases n,
{
    let other = episode_without(episode, i);
    let files = episode.files;
    if n > 0 {
        lemma_accepted_without_file(episode, declared, base, i, (n - 1) as nat);
        let m: int = if n - 1 < i {
            n - 1
        } else {
            n as int
        };
        assert(other.files[n - 1] == files[m]);
        assert forall|g: Seq<char>| declared.contains(g) implies (formats_before(
            other.files,
            n - 1,
        ).contains(g) <==> formats_before(files, m).contains(g)) by {
            if formats_before(other.files, n - 1).contains(g) {
                let j = choose|j: int|
                    0 <= j < n - 1 && j < other.files.len() && #[trigger] format_of(
                        other.files[j],
                    ) == Some(g);
                let k = if j < i {
                    j
                } else {
                    j + 1
                };
                assert(other.files[j] == files[k]);
                assert(0 <= k < m && format_of(files[k]) == Some(g));
            }
            if formats_before(files, m).contains(g) {
                let k = choose|k: int|
                    0 <= k < m && k < files.len() && #[trigger] format_of(files[k]) == Some(g);
                assert(k != i);
                let j = if k < i {
                    k
                } else {
                    k - 1
                };
                assert(other.files[j] == files[k]);
                assert(0 <= j < n - 1 && format_of(other.files[j]) == Some(g));
            }
        }
        assert(outcome_at(other, declared, base, n - 1) == outcome_at(episode, declared, base, m));
        if n == i + 1 {
            assert(outcome_at(episode, declared, base, i) is Rejected);
            assert(routed(episode, declared, base, (i + 1) as nat).accepted == routed(
                episode,
                declared,
                base,
                i as nat,
            ).accepted);
        }
    }
}

/// Taking a file that can never be accepted out of an episode changes nothing in the
/// files that are accepted.
pub proof fn lemma_route_without_file(
    episode: EpisodeView,
    declared: Set<Seq<char>>,
    base: Seq<char>,
    i: int,
)
    requires
        0 <= i < episode.files.len(),
        never_accepted(episode.files[i], declared),
    ensures
        routing_of(episode_without(episode, i), declared, base).accepted == routing_of(
            episode,
            declared,
            base,
        ).accepted,
{
    let n = (episode.files.len() - 1) as nat;
    lemma_accepted_without_file(episode, declared, base, i, n);
    if n <= i {
        assert(outcome_at(episode, declared, base, i) is Rejected);
    }
}

} // verus!
