//! The host-facing command surface: requests in, plain values or error text
//! out.
use vstd::prelude::*;
use crate::provider::{choose_name, default_provider, opt_str_view, resolve_model, resolve_provider};
use crate::session::{
    has_session, page_end, page_start, same_turn, stored, turns_of, SessionDetail, SessionStore,
    SessionSummary,
};

verus! {

/// The error text when a fresh id collides with the stored id `d`.
pub open spec fn duplicate_message(d: Seq<char>) -> Seq<char> {
    "Duplicate id: "@ + d
}

/// The error texts with which creating a session can fail: a fresh id that
/// collides with a stored one, an unreadable clock, a failed random source.
pub open spec fn creation_error(ss: Seq<SessionSummary>, m: Seq<char>) -> bool {
    ||| exists|d: Seq<char>| has_session(ss, d) && m == #[trigger] duplicate_message(d)
    ||| m == "System clock unavailable"@
    ||| m == "Random source unavailable"@
}

/// Page size of a listing when the host gives none.
pub const DEFAULT_PAGE_SIZE: i64 = 50;

/// Starts a conversation turn: reuses the given session, or creates one for
/// the chosen provider and model, and returns the session id under which the
/// agent run goes on.
pub fn send_message(
    store: &mut SessionStore,
    session_id: Option<String>,
    provider: Option<&str>,
    model: Option<&str>,
    default_model: &str,
) -> (r: Result<String, String>)
    requires
        old(store).wf(),
    ensures
        final(store).wf(),
        final(store).messages_view() == old(store).messages_view(),
        session_id matches Some(id) ==> r == Ok::<String, String>(id) && final(store).sessions_view()
            == old(store).sessions_view(),
        session_id is None ==> match r {
            Ok(id) => {
                &&& final(store).sessions_view().drop_last() == old(store).sessions_view()
                &&& final(store).sessions_view().last().id@ == id@
                &&& final(store).sessions_view().last().provider@ == choose_name(
                    opt_str_view(provider),
                    None,
                    default_provider(),
                )
                &&& final(store).sessions_view().last().model@ == choose_name(
                    opt_str_view(model),
                    None,
                    default_model@,
                )
            },
            Err(m) => {
                &&& final(store).sessions_view() == old(store).sessions_view()
                &&& creation_error(old(store).sessions_view(), m@)
            },
        },
{
    match session_id {
        Some(id) => Ok(id),
        None => new_session(store, provider, model, default_model),
    }
}

/// Creates a session for the chosen provider and model (defaults when not
/// given) and returns its id.
pub fn new_session(
    store: &mut SessionStore,
    provider: Option<&str>,
    model: Option<&str>,
    default_model: &str,
) -> (r: Result<String, String>)
    requires
        old(store).wf(),
    ensures
        final(store).wf(),
        final(store).messages_view() == old(store).messages_view(),
        r is Err ==> final(store).sessions_view() == old(store).sessions_view(),
        r matches Err(m) ==> creation_error(old(store).sessions_view(), m@),
        r matches Ok(id) ==> {
            &&& !has_session(old(store).sessions_view(), id@)
            &&& final(store).sessions_view().drop_last() == old(store).sessions_view()
            &&& final(store).sessions_view().last().id@ == id@
            &&& final(store).sessions_view().last().provider@ == choose_name(
                opt_str_view(provider),
                None,
                default_provider(),
            )
            &&& final(store).sessions_view().last().model@ == choose_name(
                opt_str_view(model),
                None,
                default_model@,
            )
        },
{
    let p = resolve_provider(provider, None);
    let m = resolve_model(model, None, default_model);
    match store.create_session(p.as_str(), m.as_str()) {
        Ok(id) => Ok(id),
        Err(e) => {
            let msg = e.message();
            proof {
                if let crate::session::StoreError::DuplicateId { id } = e {
                    assert(msg@ == duplicate_message(id@));
                }
            }
            Err(msg)
        },
    }
}

/// One page of sessions, 50 from the start unless told otherwise.
pub fn list_sessions(store: &SessionStore, limit: Option<i64>, offset: Option<i64>) -> (r: Vec<
    SessionSummary,
>)
    requires
        store.wf(),
    ensures
        ({
            let lim = match limit {
                Some(l) => l,
                None => DEFAULT_PAGE_SIZE,
            };
            let off = match offset {
                Some(o) => o,
                None => 0,
            };
            let n = store.sessions_view().len() as int;
            &&& crate::session::keys_of(r@) == crate::session::keys_of(store.sessions_view()).sort_by(
                crate::order::key_order(),
            ).subrange(page_start(n, off as int), page_end(n, lim as int, off as int))
            &&& forall|k: int| 0 <= k < r@.len() ==> stored(store.sessions_view(), #[trigger] r@[k])
        }),
{
    let lim = match limit {
        Some(l) => l,
        None => DEFAULT_PAGE_SIZE,
    };
    let off = match offset {
        Some(o) => o,
        None => 0,
    };
    store.list_sessions(lim, off)
}

/// The session with all its turns, or the error text.
pub fn get_session(store: &SessionStore, session_id: &str) -> (r: Result<SessionDetail, String>)
    requires
        store.wf(),
    ensures
        has_session(store.sessions_view(), session_id@) <==> r is Ok,
        r matches Err(m) ==> m@ == "Session not found: "@ + session_id@,
        r matches Ok(d) ==> {
            let turns = turns_of(store.messages_view(), session_id@);
            &&& exists|j: int|
                0 <= j < store.sessions_view().len() && {
                    let s = #[trigger] store.sessions_view()[j];
                    &&& s.id@ == session_id@
                    &&& d.id@ == s.id@
                    &&& d.title@ == s.title@
                    &&& d.provider@ == s.provider@
                    &&& d.model@ == s.model@
                    &&& d.created_at@ == s.created_at@
                    &&& d.updated_at@ == s.updated_at@
                    &&& d.message_count == s.message_count
                }
            &&& d.messages@.len() == turns.len()
            &&& forall|k: int| 0 <= k < turns.len() ==> same_turn(#[trigger] d.messages@[k], turns[k])
        },
{
    match store.get_session(session_id) {
        Ok(d) => Ok(d),
        Err(e) => Err(e.message()),
    }
}

/// Deletes the session and its turns.
pub fn delete_session(store: &mut SessionStore, session_id: &str) -> (r: Result<(), String>)
    requires
        old(store).wf(),
    ensures
        final(store).wf(),
        r is Ok,
        !has_session(final(store).sessions_view(), session_id@),
        crate::session::count_for(final(store).messages_view(), session_id@) == 0,
{
    store.delete_session(session_id);
    Ok(())
}

} // verus!
