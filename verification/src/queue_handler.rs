//! The reconciliation core: dispatches incoming envelopes by origin and tag,
//! drives the server-activation flow (authorize, poll for addresses, publish,
//! retire the previous holder, persist the new one) and the
//! member-authorization flow (authorize once, announce success).
//!
//! Every flow is specified against the collaborator histories: the contracts
//! say which calls a flow performs, with what arguments, and what it
//! publishes and persists, for every answer the collaborators can give.

use vstd::prelude::*;
use vstd::string::StringExecFns;

use crate::admine_message::{AdmineMessage, AdmineMessageView};
use crate::codec::{decode_envelope, encode_envelope};
use crate::config::RetryConfig;
use crate::errors::StorageError;
use crate::persistence::{KeyValueStore, SetEvent};
use crate::pub_sub::{PublishEvent, TPublisher};
use crate::vpn::{AuthEvent, ListEvent, TVpnClient};

verus! {

/// The timer that separates retry cycles.  Implementations suspend only the
/// flow that is waiting, never the shared receive loop.
pub trait Sleeper {
    /// Waits for the given number of milliseconds.
    fn sleep_ms(&mut self, millis: u64);
}

/// The well-known key of the Active Member Record.
pub open spec fn server_member_key() -> Seq<char> {
    "server_member_id"@
}

/// Whether `post` begins with `pre`: the history only grew.
pub open spec fn extends<T>(pre: Seq<T>, post: Seq<T>) -> bool {
    pre.len() <= post.len() && post.subrange(0, pre.len() as int) == pre
}

/// A pushed history begins with what it was before.
pub proof fn lemma_push_extends<T>(pre: Seq<T>, x: T)
    ensures
        pre.push(x).subrange(0, pre.len() as int) == pre,
        pre.push(x).last() == x,
        pre.push(x).len() == pre.len() + 1,
        extends(pre, pre.push(x)),
{
    assert(pre.push(x).subrange(0, pre.len() as int) =~= pre);
}

/// Growing a history twice still grows it.
pub proof fn lemma_extends_trans<T>(a: Seq<T>, b: Seq<T>, c: Seq<T>)
    requires
        extends(a, b),
        extends(b, c),
    ensures
        extends(a, c),
{
    assert(c.subrange(0, a.len() as int) =~= a) by {
        assert forall|i: int| 0 <= i < a.len() implies c.subrange(0, a.len() as int)[i] == a[i] by {
            assert(b.subrange(0, a.len() as int)[i] == b[i]);
            assert(c.subrange(0, b.len() as int)[i] == c[i]);
        };
    };
}

/// A grown history keeps every entry it already had.
pub proof fn lemma_extends_index<T>(a: Seq<T>, b: Seq<T>, i: int)
    requires
        extends(a, b),
        0 <= i < a.len(),
    ensures
        b[i] == a[i],
{
    assert(b.subrange(0, a.len() as int)[i] == b[i]);
}

/// A history begins with itself.
pub proof fn lemma_extends_refl<T>(a: Seq<T>)
    ensures
        extends(a, a),
{
    assert(a.subrange(0, a.len() as int) =~= a);
}

/// Pushing one more authorization for the candidate keeps the loop's picture
/// of the authorization history.
proof fn lemma_auth_grow(
    pre: Seq<AuthEvent>, before: Seq<AuthEvent>, cur: Seq<AuthEvent>,
    member: Seq<char>, ev: AuthEvent,
)
    requires
        extends(pre, before),
        forall|i: int| pre.len() <= i < before.len() ==> (#[trigger] before[i]).member == member,
        cur == before.push(ev),
        ev.member == member,
    ensures
        extends(pre, cur),
        cur.len() == before.len() + 1,
        forall|i: int| pre.len() <= i < cur.len() ==> (#[trigger] cur[i]).member == member,
{
    lemma_push_extends(before, ev);
    lemma_extends_trans(pre, before, cur);
    assert forall|i: int| pre.len() <= i < cur.len() implies (#[trigger] cur[i]).member == member by {
        if i < before.len() {
            lemma_extends_index(before, cur, i);
        } else {
            assert(cur[i] == ev);
        }
    };
}

/// Pushing one more listing for the candidate keeps the loop's picture of
/// the listing history.
proof fn lemma_list_grow(
    pre: Seq<ListEvent>, before: Seq<ListEvent>, cur: Seq<ListEvent>,
    member: Seq<char>, ev: ListEvent,
)
    requires
        extends(pre, before),
        forall|i: int| pre.len() <= i < before.len() ==> (#[trigger] before[i]).member == member,
        forall|i: int| pre.len() <= i < before.len() ==> !nonempty_ips((#[trigger] before[i]).ips),
        cur == before.push(ev),
        ev.member == member,
    ensures
        extends(pre, cur),
        cur.len() == before.len() + 1,
        forall|i: int| pre.len() <= i < cur.len() ==> (#[trigger] cur[i]).member == member,
        forall|i: int| pre.len() <= i < cur.len() - 1 ==> !nonempty_ips((#[trigger] cur[i]).ips),
        !nonempty_ips(ev.ips) ==> (forall|i: int| pre.len() <= i < cur.len() ==> !nonempty_ips((#[trigger] cur[i]).ips)),
        cur.last() == ev,
{
    lemma_push_extends(before, ev);
    lemma_extends_trans(pre, before, cur);
    assert forall|i: int| pre.len() <= i < cur.len() implies (#[trigger] cur[i]).member == member by {
        if i < before.len() {
            lemma_extends_index(before, cur, i);
        } else {
            assert(cur[i] == ev);
        }
    };
    assert forall|i: int| pre.len() <= i < cur.len() - 1 implies !nonempty_ips((#[trigger] cur[i]).ips) by {
        lemma_extends_index(before, cur, i);
    };
    if !nonempty_ips(ev.ips) {
        assert forall|i: int| pre.len() <= i < cur.len() implies !nonempty_ips((#[trigger] cur[i]).ips) by {
            if i < before.len() {
                lemma_extends_index(before, cur, i);
            } else {
                assert(cur[i] == ev);
            }
        };
    }
}

/// The addresses rendered as one comma-separated string, in order.
pub open spec fn join_ips(ips: Seq<Seq<char>>) -> Seq<char>
    decreases ips.len(),
{
    if ips.len() == 0 {
        Seq::empty()
    } else if ips.len() == 1 {
        ips[0]
    } else {
        ips[0] + seq![','] + join_ips(ips.skip(1))
    }
}

/// The result envelope of a successful activation.
pub open spec fn activation_envelope(origin: Seq<char>, ips: Seq<Seq<char>>) -> AdmineMessageView {
    AdmineMessageView { origin, tags: seq!["new_server_up"@], message: join_ips(ips) }
}

/// The result envelope of a successful member authorization.
pub open spec fn auth_success_envelope(origin: Seq<char>, member: Seq<char>) -> AdmineMessageView {
    AdmineMessageView { origin, tags: seq!["auth_member_success"@], message: member }
}

/// Whether a listing came back with at least one address.
pub open spec fn nonempty_ips(ips: Option<Seq<Seq<char>>>) -> bool {
    ips matches Some(v) && v.len() > 0
}

/// How the activation loop may grow the authorization history: only entries
/// for the candidate, at most one per cycle.
pub open spec fn auth_extension(pre: Seq<AuthEvent>, post: Seq<AuthEvent>, member: Seq<char>, bound: int) -> bool {
    &&& extends(pre, post)
    &&& post.len() - pre.len() <= bound
    &&& forall|i: int| pre.len() <= i < post.len() ==> (#[trigger] post[i]).member == member
}

/// How the activation loop may grow the listing history: only entries for
/// the candidate, at most one per cycle, and every listing before the last
/// came back empty or failed — else the loop would have stopped there.
pub open spec fn list_extension(pre: Seq<ListEvent>, post: Seq<ListEvent>, member: Seq<char>, bound: int) -> bool {
    &&& extends(pre, post)
    &&& post.len() - pre.len() <= bound
    &&& forall|i: int| pre.len() <= i < post.len() ==> (#[trigger] post[i]).member == member
    &&& forall|i: int| pre.len() <= i < post.len() - 1 ==> !nonempty_ips((#[trigger] post[i]).ips)
}

/// Whether the activation loop found addresses: its last listing, if it made
/// one, came back non-empty.
pub open spec fn activation_found(pre_list: Seq<ListEvent>, post_list: Seq<ListEvent>) -> bool {
    post_list.len() > pre_list.len() && nonempty_ips(post_list.last().ips)
}

/// The removals a successful activation performs: exactly one, of the
/// previously persisted holder, if one is recorded, is not empty and is not
/// the new candidate itself; none otherwise.
pub open spec fn expected_deletes(pre_map: Map<Seq<char>, Seq<char>>, member: Seq<char>) -> Seq<Seq<char>> {
    if pre_map.contains_key(server_member_key())
        && pre_map[server_member_key()].len() > 0
        && pre_map[server_member_key()] != member {
        seq![pre_map[server_member_key()]]
    } else {
        Seq::empty()
    }
}

/// The member-authorization flow as a relation between the histories before
/// and after one invocation: exactly one authorization call for the member;
/// on its success exactly one publication of the success envelope on the
/// result channel, on its failure no publication at all.
pub open spec fn auth_flow_post(
    pre_auth: Seq<AuthEvent>,
    post_auth: Seq<AuthEvent>,
    pre_pub: Seq<PublishEvent>,
    post_pub: Seq<PublishEvent>,
    member: Seq<char>,
    channel: Seq<char>,
    origin: Seq<char>,
) -> bool {
    &&& post_auth.len() == pre_auth.len() + 1
    &&& post_auth.subrange(0, pre_auth.len() as int) == pre_auth
    &&& post_auth.last().member == member
    &&& (post_auth.last().ok ==> {
        &&& post_pub.len() == pre_pub.len() + 1
        &&& post_pub.subrange(0, pre_pub.len() as int) == pre_pub
        &&& post_pub.last().topic == channel
        &&& post_pub.last().payload == encode_envelope(auth_success_envelope(origin, member))
    })
    &&& (!post_auth.last().ok ==> post_pub == pre_pub)
}

/// The server-activation flow as a relation between the histories before and
/// after one invocation.  The loop makes at most `attempts + 1` cycles.  If
/// its last listing found addresses, exactly one result envelope goes out,
/// carrying the comma-joined addresses in the order the directory returned
/// them; the previous holder is removed exactly when one different from the
/// candidate is recorded; and the candidate is written to the Active Member
/// Record exactly once.  If every cycle failed, the budget is spent whole and
/// nothing is published, removed or written.
pub open spec fn activation_flow_post(
    pre_auth: Seq<AuthEvent>,
    post_auth: Seq<AuthEvent>,
    pre_list: Seq<ListEvent>,
    post_list: Seq<ListEvent>,
    pre_del: Seq<Seq<char>>,
    post_del: Seq<Seq<char>>,
    pre_pub: Seq<PublishEvent>,
    post_pub: Seq<PublishEvent>,
    pre_map: Map<Seq<char>, Seq<char>>,
    post_map: Map<Seq<char>, Seq<char>>,
    pre_set: Seq<SetEvent>,
    post_set: Seq<SetEvent>,
    member: Seq<char>,
    channel: Seq<char>,
    origin: Seq<char>,
    attempts: int,
) -> bool {
    &&& auth_extension(pre_auth, post_auth, member, attempts + 1)
    &&& list_extension(pre_list, post_list, member, attempts + 1)
    &&& if activation_found(pre_list, post_list) {
        let ips = post_list.last().ips->Some_0;
        &&& post_pub.len() == pre_pub.len() + 1
        &&& post_pub.subrange(0, pre_pub.len() as int) == pre_pub
        &&& post_pub.last().topic == channel
        &&& post_pub.last().payload == encode_envelope(activation_envelope(origin, ips))
        &&& post_del == pre_del + expected_deletes(pre_map, member)
        &&& post_set.len() == pre_set.len() + 1
        &&& post_set.subrange(0, pre_set.len() as int) == pre_set
        &&& post_set.last().key == server_member_key()
        &&& post_set.last().value == member
        &&& (post_set.last().ok ==> post_map == pre_map.insert(server_member_key(), member))
        &&& (!post_set.last().ok ==> post_map == pre_map)
    } else {
        &&& post_auth.len() == pre_auth.len() + attempts + 1
        &&& post_pub == pre_pub
        &&& post_del == pre_del
        &&& post_map == pre_map
        &&& post_set == pre_set
    }
}

/// What dispatching one envelope does: a well-formed "server" envelope runs
/// the activation flow, a well-formed "bot" envelope runs the authorization
/// flow, and anything else — another origin, a missing tag, or an empty
/// message — touches no collaborator at all.
pub open spec fn dispatch_post(
    m: AdmineMessageView,
    pre_auth: Seq<AuthEvent>,
    post_auth: Seq<AuthEvent>,
    pre_list: Seq<ListEvent>,
    post_list: Seq<ListEvent>,
    pre_del: Seq<Seq<char>>,
    post_del: Seq<Seq<char>>,
    pre_pub: Seq<PublishEvent>,
    post_pub: Seq<PublishEvent>,
    pre_map: Map<Seq<char>, Seq<char>>,
    post_map: Map<Seq<char>, Seq<char>>,
    pre_set: Seq<SetEvent>,
    post_set: Seq<SetEvent>,
    channel: Seq<char>,
    origin: Seq<char>,
    attempts: int,
) -> bool {
    if m.origin == "server"@ && m.has_tag("server_on"@) && m.message.len() > 0 {
        activation_flow_post(
            pre_auth, post_auth, pre_list, post_list, pre_del, post_del,
            pre_pub, post_pub, pre_map, post_map, pre_set, post_set,
            m.message, channel, origin, attempts,
        )
    } else if m.origin == "bot"@ && m.has_tag("auth_member"@) && m.message.len() > 0 {
        &&& auth_flow_post(pre_auth, post_auth, pre_pub, post_pub, m.message, channel, origin)
        &&& post_list == pre_list
        &&& post_del == pre_del
        &&& post_map == pre_map
        &&& post_set == pre_set
    } else {
        &&& post_auth == pre_auth
        &&& post_list == pre_list
        &&& post_del == pre_del
        &&& post_pub == pre_pub
        &&& post_map == pre_map
        &&& post_set == pre_set
    }
}

/// Appends the comma-separated rendering of the addresses from position `i` on.
fn push_ips(out: &mut String, ips: &Vec<String>, i: usize)
    requires
        i <= ips.len(),
    ensures
        final(out)@ == old(out)@ + join_ips(ips.deep_view().skip(i as int)),
    decreases ips.len() - i,
{
    let ghost iv = ips.deep_view();
    if i == ips.len() {
        proof {
            assert(iv.skip(i as int) =~= Seq::<Seq<char>>::empty());
            assert(out@ =~= old(out)@ + join_ips(iv.skip(i as int)));
        }
    } else {
        out.append(ips[i].as_str());
        proof {
            assert(iv.skip(i as int)[0] == iv[i as int]);
            assert(iv[i as int] == ips@[i as int]@);
        }
        if i + 1 < ips.len() {
            push_char_comma(out);
            push_ips(out, ips, i + 1);
            proof {
                let rest = iv.skip(i as int);
                assert(rest.len() >= 2);
                assert(rest.skip(1) =~= iv.skip(i + 1 as int));
                assert(join_ips(rest) == rest[0] + seq![','] + join_ips(rest.skip(1)));
                assert(out@ =~= old(out)@ + join_ips(rest));
            }
        } else {
            proof {
                let rest = iv.skip(i as int);
                assert(rest.len() == 1);
                assert(join_ips(rest) == rest[0]);
                assert(out@ =~= old(out)@ + join_ips(rest));
            }
        }
    }
}

/// Appends one comma.
fn push_char_comma(out: &mut String)
    ensures
        final(out)@ == old(out)@.push(','),
{
    out.append(",");
    proof {
        reveal_strlit(",");
        assert(out@ =~= old(out)@.push(','));
    }
}

/// The addresses rendered as one comma-separated string.
fn join_ips_exec(ips: &Vec<String>) -> (r: String)
    ensures
        r@ == join_ips(ips.deep_view()),
{
    let mut out = String::new();
    push_ips(&mut out, ips, 0);
    proof {
        assert(ips.deep_view().skip(0) =~= ips.deep_view());
        assert(out@ =~= join_ips(ips.deep_view()));
    }
    out
}

/// The reconciliation core's entry points.
pub struct Handle {}

impl Handle {
    /// Writes the candidate to the Active Member Record, overwriting any
    /// previous value.
    pub fn update_server_id<S: KeyValueStore>(new_id: &str, storage: &mut S) -> (r: Result<(), StorageError>)
        ensures
            final(storage).set_events() == old(storage).set_events().push(SetEvent {
                key: server_member_key(),
                value: new_id@,
                ok: r is Ok,
            }),
            r is Ok ==> final(storage).store_map() == old(storage).store_map().insert(server_member_key(), new_id@),
            r is Err ==> final(storage).store_map() == old(storage).store_map(),
    {
        storage.set(String::from_str("server_member_id"), new_id.to_owned())
    }

    /// The member-authorization flow: authorize once, and on success publish
    /// the success envelope on the result channel; on failure publish nothing.
    pub fn process_auth_member<V: TVpnClient, P: TPublisher>(
        member_id: String,
        vpn_client: &mut V,
        pub_sub: &mut P,
        vpn_channel: &str,
        self_origin: &str,
    )
        ensures
            auth_flow_post(
                old(vpn_client).auth_events(), final(vpn_client).auth_events(),
                old(pub_sub).publish_events(), final(pub_sub).publish_events(),
                member_id@, vpn_channel@, self_origin@,
            ),
            final(vpn_client).delete_events() == old(vpn_client).delete_events(),
            final(vpn_client).list_events() == old(vpn_client).list_events(),
    {
        let auth_result = vpn_client.auth_member(member_id.clone(), None);
        proof {
            lemma_push_extends(
                old(vpn_client).auth_events(),
                AuthEvent { member: member_id@, ok: auth_result is Ok },
            );
        }
        match auth_result {
            Err(_) => {
            },
            Ok(_) => {
                let mut tags: Vec<String> = Vec::new();
                tags.push(String::from_str("auth_member_success"));
                let mut success_message = AdmineMessage::new(tags, member_id);
                success_message.set_origin(self_origin.to_owned());
                proof {
                    assert(success_message@.tags =~= seq!["auth_member_success"@]);
                    assert(success_message@ =~= auth_success_envelope(self_origin@, success_message@.message));
                }
                let serialized_message = success_message.to_json_string();
                let publish_result = pub_sub.publish(vpn_channel.to_owned(), serialized_message);
                proof {
                    lemma_push_extends(
                        old(pub_sub).publish_events(),
                        final(pub_sub).publish_events().last(),
                    );
                }
                let _ = publish_result;
            },
        }
    }

    /// The server-activation flow: authorize the candidate and poll for its
    /// addresses, up to `attempts` retries with a pause between cycles; on
    /// success publish the addresses, retire a different previous holder, and
    /// persist the candidate as the Active Member Record; on exhaustion leave
    /// every collaborator untouched.
    pub fn process_server_up<V: TVpnClient, S: KeyValueStore, P: TPublisher, D: Sleeper>(
        member_id: String,
        vpn_client: &mut V,
        storage: &mut S,
        pub_sub: &mut P,
        retry_config: &RetryConfig,
        vpn_channel: &str,
        self_origin: &str,
        timer: &mut D,
    )
        ensures
            activation_flow_post(
                old(vpn_client).auth_events(), final(vpn_client).auth_events(),
                old(vpn_client).list_events(), final(vpn_client).list_events(),
                old(vpn_client).delete_events(), final(vpn_client).delete_events(),
                old(pub_sub).publish_events(), final(pub_sub).publish_events(),
                old(storage).store_map(), final(storage).store_map(),
                old(storage).set_events(), final(storage).set_events(),
                member_id@, vpn_channel@, self_origin@, retry_config.attempts as int,
            ),
    {
        let ghost pre_auth = vpn_client.auth_events();
        let ghost pre_list = vpn_client.list_events();
        let ghost pre_del = vpn_client.delete_events();
        let ghost pre_pub = pub_sub.publish_events();
        let ghost pre_map = storage.store_map();
        let ghost pre_set = storage.set_events();
        proof {
            lemma_extends_refl(pre_auth);
            lemma_extends_refl(pre_list);
        }
        let total = retry_config.attempts;
        let mut attempts = retry_config.attempts;
        let mut found: Option<Vec<String>> = None;
        loop
            invariant_except_break
                found is None,
                forall|i: int| pre_list.len() <= i < vpn_client.list_events().len()
                    ==> !nonempty_ips((#[trigger] vpn_client.list_events()[i]).ips),
                vpn_client.auth_events().len() == pre_auth.len() + total - attempts,
                vpn_client.list_events().len() <= pre_list.len() + total - attempts,
            invariant
                attempts <= total,
                total == retry_config.attempts,
                pre_auth == old(vpn_client).auth_events(),
                pre_list == old(vpn_client).list_events(),
                pre_del == old(vpn_client).delete_events(),
                pre_pub == old(pub_sub).publish_events(),
                pre_map == old(storage).store_map(),
                pre_set == old(storage).set_events(),
                extends(pre_auth, vpn_client.auth_events()),
                forall|i: int| pre_auth.len() <= i < vpn_client.auth_events().len()
                    ==> (#[trigger] vpn_client.auth_events()[i]).member == member_id@,
                extends(pre_list, vpn_client.list_events()),
                forall|i: int| pre_list.len() <= i < vpn_client.list_events().len()
                    ==> (#[trigger] vpn_client.list_events()[i]).member == member_id@,
                forall|i: int| pre_list.len() <= i < vpn_client.list_events().len() - 1
                    ==> !nonempty_ips((#[trigger] vpn_client.list_events()[i]).ips),
                vpn_client.delete_events() == pre_del,
                pub_sub.publish_events() == pre_pub,
                storage.store_map() == pre_map,
                storage.set_events() == pre_set,
            ensures
                found matches Some(ips),
                (found matches Some(ips) ==> {
                    &&& ips.deep_view().len() > 0
                    &&& vpn_client.list_events().len() > pre_list.len()
                    &&& vpn_client.list_events().last().ips == Some(ips.deep_view())
                }),
                auth_extension(pre_auth, vpn_client.auth_events(), member_id@, total + 1),
                list_extension(pre_list, vpn_client.list_events(), member_id@, total + 1),
                vpn_client.delete_events() == pre_del,
                pub_sub.publish_events() == pre_pub,
                storage.store_map() == pre_map,
                storage.set_events() == pre_set,
            decreases attempts,
        {
            // Each cycle first authorizes the candidate: a member may not yet
            // be visible in the directory right after coming up.
            let ghost auth_before = vpn_client.auth_events();
            let auth_result = vpn_client.auth_member(member_id.clone(), None);
            proof {
                lemma_auth_grow(
                    pre_auth,
                    auth_before,
                    vpn_client.auth_events(),
                    member_id@,
                    AuthEvent { member: member_id@, ok: auth_result is Ok },
                );
            }
            if auth_result.is_err() {
                if attempts == 0 {
                    proof {
                        assert(vpn_client.auth_events().len() == pre_auth.len() + total + 1);
                        assert(!activation_found(pre_list, vpn_client.list_events()));
                    }
                    return;
                }
                attempts = attempts - 1;
                timer.sleep_ms(retry_config.delay_ms);
                continue;
            }
            let ghost list_before = vpn_client.list_events();
            let list_result = vpn_client.get_member_ips_in_vpn(member_id.clone());
            let ghost list_ev = ListEvent {
                member: member_id@,
                ips: if list_result is Ok { Some(list_result->Ok_0.deep_view()) } else { None },
            };
            proof {
                lemma_list_grow(pre_list, list_before, vpn_client.list_events(), member_id@, list_ev);
            }
            match list_result {
                Ok(ips) => {
                    if ips.len() == 0 {
                        proof {
                            assert(!nonempty_ips(list_ev.ips));
                        }
                        if attempts == 0 {
                            proof {
                                assert(vpn_client.auth_events().len() == pre_auth.len() + total + 1);
                                assert(!activation_found(pre_list, vpn_client.list_events()));
                            }
                            return;
                        }
                        attempts = attempts - 1;
                        timer.sleep_ms(retry_config.delay_ms);
                    } else {
                        proof {
                            assert(vpn_client.list_events().last().ips == Some(ips.deep_view()));
                        }
                        found = Some(ips);
                        break;
                    }
                },
                Err(_) => {
                    proof {
                        assert(!nonempty_ips(list_ev.ips));
                    }
                    if attempts == 0 {
                        proof {
                            assert(vpn_client.auth_events().len() == pre_auth.len() + total + 1);
                            assert(!activation_found(pre_list, vpn_client.list_events()));
                        }
                        return;
                    }
                    attempts = attempts - 1;
                    timer.sleep_ms(retry_config.delay_ms);
                },
            }
        }
        let member_ips: Vec<String> = match found {
            Some(ips) => ips,
            None => {
                proof {
                    assert(false);
                }
                return;
            },
        };

        // Publish the discovered addresses on the result channel.
        let mut tags: Vec<String> = Vec::new();
        tags.push(String::from_str("new_server_up"));
        let joined = join_ips_exec(&member_ips);
        let mut new_message = AdmineMessage::new(tags, joined);
        new_message.set_origin(self_origin.to_owned());
        proof {
            assert(new_message@.tags =~= seq!["new_server_up"@]);
            assert(new_message@ =~= activation_envelope(self_origin@, member_ips.deep_view()));
        }
        let serialized_message = new_message.to_json_string();
        let ghost pub_before = pub_sub.publish_events();
        let publish_result = pub_sub.publish(vpn_channel.to_owned(), serialized_message);
        proof {
            lemma_push_extends(pub_before, final(pub_sub).publish_events().last());
        }
        let _ = publish_result;

        // Retire the previous holder, if a different one is recorded; its
        // removal is best-effort and cannot abort the flow.
        let old_member_id = match storage.get("server_member_id") {
            Some(v) => v,
            None => String::new(),
        };
        if !old_member_id.as_str().is_empty() && !(old_member_id == member_id) {
            let ghost del_before = vpn_client.delete_events();
            let delete_result = vpn_client.delete_member(old_member_id);
            proof {
                lemma_push_extends(del_before, final(vpn_client).delete_events().last());
            }
            let _ = delete_result;
        }
        proof {
            assert(vpn_client.delete_events() =~= pre_del + expected_deletes(pre_map, member_id@));
        }

        // Persist the candidate as the new Active Member Record.
        let ghost set_before = storage.set_events();
        let update_result = Self::update_server_id(member_id.as_str(), storage);
        proof {
            lemma_push_extends(set_before, final(storage).set_events().last());
        }
        let _ = update_result;
    }

    /// Routes one decoded envelope: a "server" envelope tagged "server_on"
    /// with a member identifier runs the activation flow, a "bot" envelope
    /// tagged "auth_member" with a member identifier runs the authorization
    /// flow, and anything else is dropped without touching a collaborator.
    #[verifier::rlimit(60)]
    pub fn process_message_with_deps<V: TVpnClient, S: KeyValueStore, P: TPublisher, D: Sleeper>(
        admine_message: AdmineMessage,
        vpn_client: &mut V,
        storage: &mut S,
        pub_sub: &mut P,
        retry_config: &RetryConfig,
        vpn_channel: &str,
        self_origin: &str,
        timer: &mut D,
    )
        ensures
            dispatch_post(
                admine_message@,
                old(vpn_client).auth_events(), final(vpn_client).auth_events(),
                old(vpn_client).list_events(), final(vpn_client).list_events(),
                old(vpn_client).delete_events(), final(vpn_client).delete_events(),
                old(pub_sub).publish_events(), final(pub_sub).publish_events(),
                old(storage).store_map(), final(storage).store_map(),
                old(storage).set_events(), final(storage).set_events(),
                vpn_channel@, self_origin@, retry_config.attempts as int,
            ),
    {
        proof {
            reveal_strlit("server");
            reveal_strlit("bot");
            assert("server"@.len() == 6);
            assert("bot"@.len() == 3);
            assert("server"@ != "bot"@);
        }
        let server_origin = String::from_str("server");
        let bot_origin = String::from_str("bot");
        if admine_message.origin().eq(&server_origin) {
            if admine_message.has_tag("server_on") && !admine_message.message().as_str().is_empty() {
                let member_id = admine_message.message().clone();
                Self::process_server_up(
                    member_id,
                    vpn_client,
                    storage,
                    pub_sub,
                    retry_config,
                    vpn_channel,
                    self_origin,
                    timer,
                );
            }
        } else if admine_message.origin().eq(&bot_origin) {
            if admine_message.has_tag("auth_member") && !admine_message.message().as_str().is_empty() {
                let member_id = admine_message.message().clone();
                Self::process_auth_member(member_id, vpn_client, pub_sub, vpn_channel, self_origin);
            }
        }
    }

    /// One turn of the receive loop after a payload arrived: decode it and
    /// route the envelope; a payload that does not follow the wire format is
    /// dropped without touching a collaborator.
    pub fn process_raw_message<V: TVpnClient, S: KeyValueStore, P: TPublisher, D: Sleeper>(
        payload: &str,
        vpn_client: &mut V,
        storage: &mut S,
        pub_sub: &mut P,
        retry_config: &RetryConfig,
        vpn_channel: &str,
        self_origin: &str,
        timer: &mut D,
    )
        ensures
            match decode_envelope(payload@) {
                Some(m) => dispatch_post(
                    m,
                    old(vpn_client).auth_events(), final(vpn_client).auth_events(),
                    old(vpn_client).list_events(), final(vpn_client).list_events(),
                    old(vpn_client).delete_events(), final(vpn_client).delete_events(),
                    old(pub_sub).publish_events(), final(pub_sub).publish_events(),
                    old(storage).store_map(), final(storage).store_map(),
                    old(storage).set_events(), final(storage).set_events(),
                    vpn_channel@, self_origin@, retry_config.attempts as int,
                ),
                None => {
                    &&& final(vpn_client).auth_events() == old(vpn_client).auth_events()
                    &&& final(vpn_client).list_events() == old(vpn_client).list_events()
                    &&& final(vpn_client).delete_events() == old(vpn_client).delete_events()
                    &&& final(pub_sub).publish_events() == old(pub_sub).publish_events()
                    &&& final(storage).store_map() == old(storage).store_map()
                    &&& final(storage).set_events() == old(storage).set_events()
                },
            },
    {
        match AdmineMessage::from_json_string(payload) {
            Ok(admine_message) => {
                Self::process_message_with_deps(
                    admine_message,
                    vpn_client,
                    storage,
                    pub_sub,
                    retry_config,
                    vpn_channel,
                    self_origin,
                    timer,
                );
            },
            Err(_) => {
            },
        }
    }
}

/// Law: the directory's authorization is idempotent, so two member
/// authorizations in a row for the same member that both succeed publish two
/// success envelopes with the same topic and the same payload.
pub proof fn lemma_member_authorization_idempotent(
    auth0: Seq<AuthEvent>, auth1: Seq<AuthEvent>, auth2: Seq<AuthEvent>,
    pub0: Seq<PublishEvent>, pub1: Seq<PublishEvent>, pub2: Seq<PublishEvent>,
    member: Seq<char>, channel: Seq<char>, origin: Seq<char>,
)
    requires
        auth_flow_post(auth0, auth1, pub0, pub1, member, channel, origin),
        auth_flow_post(auth1, auth2, pub1, pub2, member, channel, origin),
        auth1.last().ok,
        auth2.last().ok,
    ensures
        pub2.len() == pub0.len() + 2,
        pub2.subrange(0, pub0.len() as int) == pub0,
        pub2[pub2.len() - 2].topic == channel,
        pub2[pub2.len() - 2].payload == encode_envelope(auth_success_envelope(origin, member)),
        pub2.last().topic == channel,
        pub2.last().payload == encode_envelope(auth_success_envelope(origin, member)),
{
    assert(pub2[pub2.len() - 2] == pub1.last()) by {
        assert(pub2.subrange(0, pub1.len() as int)[pub1.len() - 1] == pub2[pub1.len() - 1]);
    };
    assert(pub2.subrange(0, pub0.len() as int) =~= pub0) by {
        assert forall|i: int| 0 <= i < pub0.len() implies pub2.subrange(0, pub0.len() as int)[i] == pub0[i] by {
            assert(pub2.subrange(0, pub1.len() as int)[i] == pub2[i]);
            assert(pub1.subrange(0, pub0.len() as int)[i] == pub1[i]);
        };
    };
}

} // verus!
