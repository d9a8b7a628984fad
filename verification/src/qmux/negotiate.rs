//! Agreeing on an application protocol in-band.

use vstd::prelude::*;

use super::proto::params::texts;

verus! {

/// The first entry of `server` that `client` also has.
pub open spec fn first_shared(server: Seq<Seq<char>>, client: Seq<Seq<char>>) -> Option<Seq<char>>
    decreases server.len(),
{
    if server.len() == 0 {
        None
    } else if client.contains(server[0]) {
        Some(server[0])
    } else {
        first_shared(server.drop_first(), client)
    }
}

/// The protocol agreed on from one side's point of view.
pub open spec fn agreed(is_server: bool, ours: Seq<Seq<char>>, peers: Seq<Seq<char>>) -> Option<
    Seq<char>,
> {
    if is_server {
        first_shared(ours, peers)
    } else {
        first_shared(peers, ours)
    }
}

/// Law: both peers compute the same answer.
pub proof fn lemma_both_sides_agree(server: Seq<Seq<char>>, client: Seq<Seq<char>>)
    ensures
        agreed(true, server, client) == agreed(false, client, server),
{
}

/// Law: the server's preference order wins. The agreed protocol is one that both
/// sides offer and before which the server prefers no other shared one, and there
/// is one exactly when the lists overlap.
pub proof fn lemma_server_preference(server: Seq<Seq<char>>, client: Seq<Seq<char>>)
    ensures
        match first_shared(server, client) {
            Some(p) => exists|i: int|
                0 <= i < server.len() && server[i] == p && client.contains(p) && (forall|j: int|
                    0 <= j < i ==> !client.contains(#[trigger] server[j])),
            None => forall|i: int| 0 <= i < server.len() ==> !client.contains(#[trigger] server[i]),
        },
    decreases server.len(),
{
    if server.len() > 0 {
        if client.contains(server[0]) {
            assert(server[0] == first_shared(server, client)->0);
        } else {
            let tail = server.drop_first();
            lemma_server_preference(tail, client);
            assert forall|i: int| 0 <= i < tail.len() implies tail[i] == #[trigger] server[i
                + 1] by {}
            match first_shared(tail, client) {
                Some(p) => {
                    let k = choose|i: int|
                        0 <= i < tail.len() && tail[i] == p && client.contains(p) && (forall|j: int|
                            0 <= j < i ==> !client.contains(#[trigger] tail[j]));
                    assert(server[k + 1] == p);
                    assert forall|j: int| 0 <= j < k + 1 implies !client.contains(
                        #[trigger] server[j],
                    ) by {
                        if j > 0 {
                            assert(tail[j - 1] == server[j]);
                        }
                    }
                },
                None => {
                    assert forall|j: int| 0 <= j < server.len() implies !client.contains(
                        #[trigger] server[j],
                    ) by {
                        if j > 0 {
                            assert(tail[j - 1] == server[j]);
                        }
                    }
                },
            }
        }
    }
}

/// Whether `list` holds `name`.
pub(crate) fn list_contains(list: &[String], name: &String) -> (r: bool)
    ensures
        r == texts(list@).contains(name@),
{
    let mut i: usize = 0;
    while i < list.len()
        invariant
            i <= list@.len(),
            forall|j: int| 0 <= j < i ==> (#[trigger] list@[j])@ != name@,
        decreases list@.len() - i,
    {
        if list[i] == *name {
            assert(texts(list@)[i as int] == name@);
            return true;
        }
        i += 1;
    }
    assert forall|j: int| 0 <= j < list@.len() implies texts(list@)[j] != name@ by {
        assert(list@[j]@ != name@);
    }
    false
}

/// Select the agreed application protocol from two advertised lists.
///
/// The server's preference order wins (first server entry the client also
/// offered), matching RFC 7301 ALPN selection. Both peers compute the same
/// answer because each knows whether it is the server. Returns `None` when the
/// lists don't overlap (or either side advertised nothing).
pub fn negotiate_protocol(is_server: bool, ours: &[String], peers: &[String]) -> (r: Option<
    String,
>)
    ensures
        match agreed(is_server, texts(ours@), texts(peers@)) {
            Some(name) => r matches Some(p) && p@ == name,
            None => r is None,
        },
{
    let (server, client) = if is_server {
        (ours, peers)
    } else {
        (peers, ours)
    };
    let ghost names = texts(server@);
    let ghost offered = texts(client@);
    let mut i: usize = 0;
    assert(names.skip(0) =~= names);
    while i < server.len()
        invariant
            i <= server@.len(),
            names == texts(server@),
            offered == texts(client@),
            first_shared(names, offered) == agreed(is_server, texts(ours@), texts(peers@)),
            first_shared(names, offered) == first_shared(names.skip(i as int), offered),
        decreases server@.len() - i,
    {
        assert(names.skip(i as int)[0] == names[i as int]);
        assert(names.skip(i as int).drop_first() =~= names.skip(i + 1));
        if list_contains(client, &server[i]) {
            return Some(server[i].clone());
        }
        i += 1;
    }
    None
}

/// Law: what is agreed on, from either side: the first protocol of the server that the
/// client has too, or nothing where they share none.
pub proof fn lemma_agreed_exact(server: Seq<Seq<char>>, client: Seq<Seq<char>>, i: int)
    requires
        0 <= i <= server.len(),
        forall|j: int| 0 <= j < i ==> !client.contains(#[trigger] server[j]),
        i < server.len() ==> client.contains(server[i]),
    ensures
        i < server.len() ==> agreed(true, server, client) == Some(server[i]),
        i < server.len() ==> agreed(false, client, server) == Some(server[i]),
        i == server.len() ==> agreed(true, server, client) is None,
        i == server.len() ==> agreed(false, client, server) is None,
    decreases server.len(),
{
    if i > 0 {
        let tail = server.drop_first();
        assert(!client.contains(server[0]));
        assert forall|j: int| 0 <= j < i - 1 implies !client.contains(#[trigger] tail[j]) by {
            assert(tail[j] == server[j + 1]);
        }
        if i < server.len() {
            assert(tail[i - 1] == server[i]);
        }
        lemma_agreed_exact(tail, client, i - 1);
    }
}

} // verus!
