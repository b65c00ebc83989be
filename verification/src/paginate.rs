//! The walk through the signature history of an account, page by page and backward in time.
//!
//! The walk itself asks nothing of the gateway: [`Paginator::next_request`] says which page
//! to ask for, and [`Paginator::accept_page`] takes what the gateway returned. The caller
//! makes the request in between.

use crate::constants::{EMPTY_PAGE_RETRIES, SIGNATURE_PAGE_LIMIT};
use crate::errors::CrawlError;
use crate::solana::{
    parse_error_text, parse_error_to_string, signature_from_str, signature_from_text,
};
use solana_sdk::signature::{ParseSignatureError, Signature};
use vstd::prelude::*;

verus! {

/// The state of a walk.
pub ghost struct Walk {
    /// The oldest signature of the last full page: the next page holds what is older.
    pub cursor: Option<Signature>,
    /// The signatures found so far, newest first.
    pub collected: Seq<Signature>,
    /// How many empty pages came in a row at this cursor.
    pub empty_pages: nat,
    /// How many times in a row an empty page is asked for again.
    pub patience: nat,
    /// Whether the walk is over.
    pub finished: bool,
}

/// A walk before its first page that asks again for an empty page `patience` times in a
/// row.
pub open spec fn start_with(patience: nat) -> Walk {
    Walk { cursor: None, collected: Seq::empty(), empty_pages: 0, patience, finished: false }
}

/// The walk before its first page.
pub open spec fn start() -> Walk {
    start_with(EMPTY_PAGE_RETRIES as nat)
}

/// The walk after the gateway answered its request with `page`.
///
/// A full page is appended and moves the cursor to its oldest signature. A page that is
/// neither full nor empty is appended and ends the walk: it is the oldest. An empty page may
/// have come too early: the same page is asked for again, as often as the patience of the
/// walk allows, and only the next empty page in a row ends the walk. With the patience of
/// [`start`] that is the eleventh. Nothing changes a walk that is over.
pub open spec fn step(walk: Walk, page: Seq<Signature>) -> Walk {
    if walk.finished {
        walk
    } else if page.len() == 0 {
        if walk.empty_pages < walk.patience {
            Walk { empty_pages: walk.empty_pages + 1, ..walk }
        } else {
            Walk { finished: true, ..walk }
        }
    } else if page.len() == SIGNATURE_PAGE_LIMIT {
        Walk {
            cursor: Some(page.last()),
            collected: walk.collected + page,
            empty_pages: 0,
            ..walk
        }
    } else {
        Walk { collected: walk.collected + page, finished: true, ..walk }
    }
}

/// Whether every text of the page is a signature.
pub open spec fn page_parses(page: Seq<String>) -> bool {
    forall|i: int| 0 <= i < page.len() ==> signature_from_text((#[trigger] page[i])@) is Ok
}

/// The signatures that the texts of a page are.
pub open spec fn page_signatures(page: Seq<String>) -> Seq<Signature> {
    Seq::new(page.len(), |i: int| signature_from_text(page[i]@)->Ok_0)
}

/// Whether `i` is the place of the first text of the page that is no signature.
pub open spec fn first_unparsed(page: Seq<String>, i: int) -> bool {
    &&& 0 <= i < page.len()
    &&& signature_from_text(page[i]@) is Err
    &&& forall|j: int| 0 <= j < i ==> signature_from_text((#[trigger] page[j])@) is Ok
}

/// A request for one page of the history.
pub struct PageRequest {
    /// The page holds the signatures older than this one; the newest where there is none.
    pub before: Option<Signature>,
    /// The page holds at most this many signatures.
    pub limit: usize,
}

/// A walk through the signature history of an account.
pub struct Paginator {
    before: Option<Signature>,
    signatures: Vec<Signature>,
    retries: u8,
    patience: u8,
    finished: bool,
}

impl View for Paginator {
    type V = Walk;

    closed spec fn view(&self) -> Walk {
        Walk {
            cursor: self.before,
            collected: self.signatures@,
            empty_pages: self.retries as nat,
            patience: self.patience as nat,
            finished: self.finished,
        }
    }
}

/// Parses the texts of a page.
fn parse_page(page: &Vec<String>) -> (result: Result<Vec<Signature>, ParseSignatureError>)
    ensures
        match result {
            Ok(signatures) => page_parses(page@) && signatures@ == page_signatures(page@),
            Err(error) => exists|i: int| #[trigger]
                first_unparsed(page@, i) && signature_from_text(page@[i]@) == Err::<
                    Signature,
                    ParseSignatureError,
                >(error),
        },
{
    let mut signatures: Vec<Signature> = Vec::new();
    let mut i: usize = 0;
    while i < page.len()
        invariant
            i <= page.len(),
            signatures@.len() == i,
            forall|j: int| 0 <= j < i ==> signature_from_text((#[trigger] page@[j])@) == Ok::<
                Signature,
                ParseSignatureError,
            >(signatures@[j]),
        decreases page.len() - i,
    {
        match signature_from_str(page[i].as_str()) {
            Ok(signature) => {
                signatures.push(signature);
            },
            Err(error) => {
                assert(first_unparsed(page@, i as int));
                return Err(error);
            },
        }
        i = i + 1;
    }
    Ok(signatures)
}

impl Paginator {
    /// A walk before its first page. It asks again for an empty page ten times in a row.
    pub fn new() -> (paginator: Self)
        ensures
            paginator@ == start(),
    {
        Paginator::with_retries(EMPTY_PAGE_RETRIES)
    }

    /// A walk before its first page that asks again for an empty page `retries` times in a
    /// row.
    pub fn with_retries(retries: u8) -> (paginator: Self)
        ensures
            paginator@ == start_with(retries as nat),
    {
        Paginator {
            before: None,
            signatures: Vec::new(),
            retries: 0,
            patience: retries,
            finished: false,
        }
    }

    /// Whether the walk is over.
    pub fn is_finished(&self) -> (finished: bool)
        ensures
            finished == self@.finished,
    {
        self.finished
    }

    /// The page to ask the gateway for; none once the walk is over.
    pub fn next_request(&self) -> (request: Option<PageRequest>)
        ensures
            match request {
                Some(request) => !self@.finished && request.before == self@.cursor
                    && request.limit == SIGNATURE_PAGE_LIMIT,
                None => self@.finished,
            },
    {
        if self.finished {
            None
        } else {
            Some(PageRequest { before: self.before, limit: SIGNATURE_PAGE_LIMIT })
        }
    }

    /// Takes the page that the gateway returned for the last request: the signatures as
    /// texts, newest first.
    ///
    /// A text that is no signature fails the walk, and the crawl with it: the error holds
    /// the reason for the first such text, and the walk is left as it was.
    pub fn accept_page(&mut self, page: &Vec<String>) -> (result: Result<(), CrawlError>)
        ensures
            match result {
                Ok(()) => page_parses(page@) && final(self)@ == step(
                    old(self)@,
                    page_signatures(page@),
                ),
                Err(error) => {
                    &&& *final(self) == *old(self)
                    &&& exists|i: int| #[trigger]
                        first_unparsed(page@, i) && (error matches CrawlError::SignatureParseFailed(
                            text,
                        ) && text@ == parse_error_text(signature_from_text(page@[i]@)->Err_0))
                },
            },
    {
        let signatures = match parse_page(page) {
            Ok(signatures) => signatures,
            Err(error) => {
                return Err(CrawlError::SignatureParseFailed(parse_error_to_string(&error)));
            },
        };
        if self.finished {
            return Ok(());
        }
        if signatures.len() == 0 {
            if self.retries < self.patience {
                self.retries = self.retries + 1;
            } else {
                self.finished = true;
            }
        } else if signatures.len() == SIGNATURE_PAGE_LIMIT {
            self.before = Some(signatures[signatures.len() - 1]);
            let mut signatures = signatures;
            self.signatures.append(&mut signatures);
            self.retries = 0;
        } else {
            let mut signatures = signatures;
            self.signatures.append(&mut signatures);
            self.finished = true;
        }
        Ok(())
    }

    /// The signatures found so far, newest first.
    pub fn signatures(&self) -> (signatures: &Vec<Signature>)
        ensures
            signatures@ == self@.collected,
    {
        &self.signatures
    }

    /// Ends the walk and hands out the signatures found, newest first.
    pub fn into_signatures(self) -> (signatures: Vec<Signature>)
        ensures
            signatures@ == self@.collected,
    {
        self.signatures
    }
}

/// The walk after the gateway answered its requests with `pages`, one after the other.
pub open spec fn walk(from: Walk, pages: Seq<Seq<Signature>>) -> Walk
    decreases pages.len(),
{
    if pages.len() == 0 {
        from
    } else {
        walk(step(from, pages.first()), pages.drop_first())
    }
}

/// The page that `history` holds behind the cursor: at most `SIGNATURE_PAGE_LIMIT` of the
/// signatures that are older than the cursor, the newest of them first.
pub open spec fn page_after(history: Seq<Signature>, cursor: Option<Signature>) -> Seq<Signature> {
    let from = match cursor {
        None => 0,
        Some(signature) => if history.contains(signature) {
            history.index_of(signature) + 1
        } else {
            history.len() as int
        },
    };
    let to = if from + SIGNATURE_PAGE_LIMIT <= history.len() {
        from + SIGNATURE_PAGE_LIMIT
    } else {
        history.len() as int
    };
    history.subrange(from, to)
}

/// Whether a gateway that serves `history` may answer the requests of the walk with
/// `pages`: each page is the one that the history holds behind the cursor, or it is empty
/// because it came too early.
pub open spec fn served(history: Seq<Signature>, from: Walk, pages: Seq<Seq<Signature>>) -> bool
    decreases pages.len(),
{
    pages.len() > 0 ==> {
        &&& pages.first() == page_after(history, from.cursor) || pages.first().len() == 0
        &&& served(history, step(from, pages.first()), pages.drop_first())
    }
}

/// Whether no empty page that came too early ended the walk: the gateway did not try the
/// patience of the walk with them.
pub open spec fn never_starved(
    history: Seq<Signature>,
    from: Walk,
    pages: Seq<Seq<Signature>>,
) -> bool
    decreases pages.len(),
{
    pages.len() > 0 ==> {
        &&& pages.first() == page_after(history, from.cursor) || from.finished
            || from.empty_pages < from.patience
        &&& never_starved(history, step(from, pages.first()), pages.drop_first())
    }
}

/// How many answers end a walk through a history of `length` signatures at the latest: for
/// each full page, and once more, as many as the patience allows empty pages and one.
pub open spec fn walk_bound(length: nat, patience: nat) -> nat {
    (length / (SIGNATURE_PAGE_LIMIT as nat) + 1) * (patience + 1)
}

/// What holds of a walk through `history` at every moment: what it collected is the newest
/// part of the history, and its cursor is the oldest signature collected.
spec fn on_track(history: Seq<Signature>, walk: Walk) -> bool {
    &&& walk.collected.len() <= history.len()
    &&& walk.collected == history.take(walk.collected.len() as int)
    &&& walk.empty_pages <= walk.patience
    &&& !walk.finished ==> walk.cursor == if walk.collected.len() == 0 {
        None
    } else {
        Some(history[walk.collected.len() - 1])
    }
}

/// How many answers a walk that is on track can still take before it is over.
spec fn answers_left(history: Seq<Signature>, walk: Walk) -> int {
    if walk.finished {
        0
    } else {
        ((history.len() - walk.collected.len()) / (SIGNATURE_PAGE_LIMIT as int)) * (
        walk.patience + 1) + (walk.patience + 1 - walk.empty_pages)
    }
}

proof fn lemma_page_after(history: Seq<Signature>, walk: Walk)
    requires
        history.no_duplicates(),
        on_track(history, walk),
        !walk.finished,
    ensures
        page_after(history, walk.cursor) == history.subrange(
            walk.collected.len() as int,
            if walk.collected.len() + SIGNATURE_PAGE_LIMIT <= history.len() {
                walk.collected.len() + SIGNATURE_PAGE_LIMIT
            } else {
                history.len() as int
            },
        ),
{
}

proof fn lemma_step(history: Seq<Signature>, walk: Walk, page: Seq<Signature>)
    requires
        history.no_duplicates(),
        on_track(history, walk),
        page == page_after(history, walk.cursor) || page.len() == 0,
    ensures
        on_track(history, step(walk, page)),
        answers_left(history, walk) > 0 ==> answers_left(history, step(walk, page))
            < answers_left(history, walk),
        answers_left(history, walk) >= 0,
        walk.finished && walk.collected == history ==> step(walk, page).collected == history,
        step(walk, page).patience == walk.patience,
        (page == page_after(history, walk.cursor) || walk.finished || walk.empty_pages
            < walk.patience) && (walk.finished ==> walk.collected == history) ==> (step(
            walk,
            page,
        ).finished ==> step(walk, page).collected == history),
{
    let k = walk.collected.len() as int;
    let tries = walk.patience + 1;
    let full_pages = (history.len() - k) / (SIGNATURE_PAGE_LIMIT as int);
    assert(full_pages * tries >= 0 && (full_pages - 1) * tries + tries == full_pages * tries)
        by (nonlinear_arith)
        requires
            full_pages >= 0,
            tries >= 1,
    ;
    if !walk.finished {
        lemma_page_after(history, walk);
        if page.len() > 0 {
            assert(walk.collected + page =~= history.take(k + page.len()));
        }
    }
}

proof fn lemma_walk(history: Seq<Signature>, from: Walk, pages: Seq<Seq<Signature>>)
    requires
        history.no_duplicates(),
        on_track(history, from),
        served(history, from, pages),
    ensures
        on_track(history, walk(from, pages)),
        walk(from, pages).patience == from.patience,
        from.finished ==> walk(from, pages) == from,
        pages.len() >= answers_left(history, from) ==> walk(from, pages).finished,
        never_starved(history, from, pages) && (from.finished ==> from.collected == history)
            ==> (walk(from, pages).finished ==> walk(from, pages).collected == history),
    decreases pages.len(),
{
    if pages.len() > 0 {
        lemma_step(history, from, pages.first());
        lemma_walk(history, step(from, pages.first()), pages.drop_first());
    } else {
        lemma_step(history, from, Seq::empty());
    }
}

/// Whatever the gateway answers, too early or not, the walk holds the newest part of the
/// history and no signature twice.
pub proof fn lemma_walk_collects_prefix(
    history: Seq<Signature>,
    patience: nat,
    pages: Seq<Seq<Signature>>,
)
    requires
        history.no_duplicates(),
        served(history, start_with(patience), pages),
    ensures
        walk(start_with(patience), pages).collected.len() <= history.len(),
        walk(start_with(patience), pages).collected == history.take(
            walk(start_with(patience), pages).collected.len() as int,
        ),
        walk(start_with(patience), pages).collected.no_duplicates(),
{
    assert(start_with(patience).collected =~= history.take(0));
    lemma_walk(history, start_with(patience), pages);
}

/// A walk that is over holds the whole history, each signature once and in order, unless
/// the gateway tried its patience with empty pages that came too early: unless it answered
/// eleven requests in a row with one, for the walk of [`start`].
pub proof fn lemma_walk_collects_history(
    history: Seq<Signature>,
    patience: nat,
    pages: Seq<Seq<Signature>>,
)
    requires
        history.no_duplicates(),
        served(history, start_with(patience), pages),
        never_starved(history, start_with(patience), pages),
        walk(start_with(patience), pages).finished,
    ensures
        walk(start_with(patience), pages).collected == history,
{
    assert(start_with(patience).collected =~= history.take(0));
    lemma_walk(history, start_with(patience), pages);
}

/// The walk is over after `walk_bound` answers at the latest, whatever they are.
pub proof fn lemma_walk_ends(
    history: Seq<Signature>,
    patience: nat,
    pages: Seq<Seq<Signature>>,
)
    requires
        history.no_duplicates(),
        served(history, start_with(patience), pages),
        pages.len() >= walk_bound(history.len(), patience),
    ensures
        walk(start_with(patience), pages).finished,
{
    assert(start_with(patience).collected =~= history.take(0));
    let full_pages = history.len() as int / (SIGNATURE_PAGE_LIMIT as int);
    assert((full_pages + 1) * (patience + 1) == full_pages * (patience + 1) + (patience + 1))
        by (nonlinear_arith);
    lemma_walk(history, start_with(patience), pages);
}

/// Once the walk holds the whole history, as many more answers as its patience and one end
/// it at the latest, and it then still holds the whole history. For the walk of [`start`]
/// these are the ten empty pages that it asks for again, and one more.
pub proof fn lemma_walk_ends_after_history(
    history: Seq<Signature>,
    patience: nat,
    pages: Seq<Seq<Signature>>,
    more: Seq<Seq<Signature>>,
)
    requires
        history.no_duplicates(),
        served(history, start_with(patience), pages + more),
        walk(start_with(patience), pages).collected == history,
        more.len() >= patience + 1,
    ensures
        walk(start_with(patience), pages + more).finished,
        walk(start_with(patience), pages + more).collected == history,
{
    assert(start_with(patience).collected =~= history.take(0));
    lemma_walk_split(history, start_with(patience), pages, more);
    let reached = walk(start_with(patience), pages);
    lemma_walk(history, start_with(patience), pages);
    lemma_walk(history, reached, more);
    lemma_walk_keeps_history(history, reached, more);
}

proof fn lemma_walk_split(
    history: Seq<Signature>,
    from: Walk,
    pages: Seq<Seq<Signature>>,
    more: Seq<Seq<Signature>>,
)
    requires
        served(history, from, pages + more),
    ensures
        served(history, from, pages),
        served(history, walk(from, pages), more),
        walk(from, pages + more) == walk(walk(from, pages), more),
    decreases pages.len(),
{
    if pages.len() > 0 {
        assert((pages + more).drop_first() =~= pages.drop_first() + more);
        lemma_walk_split(history, step(from, pages.first()), pages.drop_first(), more);
    }
}

proof fn lemma_walk_keeps_history(
    history: Seq<Signature>,
    from: Walk,
    pages: Seq<Seq<Signature>>,
)
    requires
        history.no_duplicates(),
        on_track(history, from),
        from.collected == history,
        served(history, from, pages),
    ensures
        walk(from, pages).collected == history,
    decreases pages.len(),
{
    if pages.len() > 0 {
        lemma_step(history, from, pages.first());
        if !from.finished {
            lemma_page_after(history, from);
        }
        lemma_walk_keeps_history(history, step(from, pages.first()), pages.drop_first());
    }
}

} // verus!
