//! The port that a viewer connects to.

use vstd::prelude::*;
use crate::text::{after_last, chars_of, decimal, find_first, has_char, lemma_until, parse_u16, same_text, slice_of, string_of, tail_after, to_decimal, u16_of, until};

verus! {

/// What follows the first slash; the whole text where there is none.
pub open spec fn past_protocol(endpoint: Seq<char>) -> Seq<char> {
    let n = until(endpoint, seq!['/']) as int;
    if n < endpoint.len() {
        endpoint.skip(n + 1)
    } else {
        endpoint
    }
}

/// Whether an endpoint speaks TCP: it names that protocol, or none.
pub open spec fn is_tcp(endpoint: Seq<char>) -> bool {
    let n = until(endpoint, seq!['/']) as int;
    n < endpoint.len() ==> endpoint.take(n) == "tcp"@
}

/// The address in an endpoint: what stands behind the protocol, up to the options.
pub open spec fn address_in(endpoint: Seq<char>) -> Seq<char> {
    let rest = past_protocol(endpoint);
    rest.take(until(rest, seq!['?', '#']) as int)
}

/// The `host:port` of an endpoint such as `tcp/127.0.0.1:7447`; nothing where no
/// port is named.
pub fn socket_addr_of(endpoint: &str) -> (addr: Option<String>)
    ensures
        match addr {
            Some(text) => text@ == address_in(endpoint@) && address_in(endpoint@).contains(':'),
            None => !address_in(endpoint@).contains(':'),
        },
{
    let chars = chars_of(endpoint);
    let slash: Vec<char> = vec!['/'];
    assert(slash@ =~= seq!['/']);
    let n: usize = find_first(&chars, &slash);
    let rest = if n < chars.len() {
        let part = slice_of(&chars, n + 1, chars.len());
        assert(part@ =~= chars@.skip(n + 1));
        part
    } else {
        chars
    };
    assert(rest@ == past_protocol(endpoint@));
    let options: Vec<char> = vec!['?', '#'];
    assert(options@ =~= seq!['?', '#']);
    let end: usize = find_first(&rest, &options);
    let addr = slice_of(&rest, 0, end);
    assert(addr@ =~= address_in(endpoint@));
    if has_char(&addr, ':') {
        Some(string_of(&addr))
    } else {
        None
    }
}

fn speaks_tcp(endpoint: &str) -> (yes: bool)
    ensures
        yes == is_tcp(endpoint@),
{
    let chars = chars_of(endpoint);
    let slash: Vec<char> = vec!['/'];
    assert(slash@ =~= seq!['/']);
    let n: usize = find_first(&chars, &slash);
    if n == chars.len() {
        return true;
    }
    let protocol = slice_of(&chars, 0, n);
    assert(protocol@ =~= endpoint@.take(n as int));
    same_text(string_of(&protocol).as_str(), "tcp")
}

/// What came of trying to listen on an address.
#[derive(Clone, Copy, PartialEq, Eq, Structural, Debug)]
pub enum Listening {
    Free,
    InUse,
    /// It failed for another reason.
    Failed,
}

/// The port to fall back on: the next one, where the text names a port.
pub open spec fn next_port(port: Seq<char>) -> nat {
    match u16_of(port) {
        Some(p) => if p < u16::MAX {
            (p + 1) as nat
        } else {
            u16::MAX as nat
        },
        None => 7448,
    }
}

/// What to say about a port that somebody else holds.
pub open spec fn port_in_use(endpoint: Seq<char>, addr: Seq<char>) -> Seq<char> {
    let port = after_last(addr, ':');
    "viz の待ち受け "@ + endpoint + " は既に使われています（"@ + addr
        + "）。\ngo2-run 側が listen する側なので、このポートは空いている必要があります。\nよくある原因: (1) ROS 2 の rmw_zenoh ルータ rmw_zenohd が 7447 を使っている\n（zenoh ルータの既定ポート。ROS 2 を使うなら止めずに別番号へ逃げる）、\n(2) 前回の go2-run がまだ生きている、(3) articara の Live feed を Connect では\nなく Listen にしている。\n誰が掴んでいるか:  ss -tlnp | grep "@
        + port + "    （または lsof -i :"@ + port
        + "）\n別ポートで逃げる:  GO2_VIZ_ENDPOINT=tcp/127.0.0.1:"@ + decimal(next_port(port))
        + " ./scripts/policy_sim.sh …\n（articara 側の endpoint も同じ番号に合わせる）"@
}

fn say_port_in_use(endpoint: &str, addr: &str) -> (text: String)
    ensures
        text@ == port_in_use(endpoint@, addr@),
{
    let addr_chars = chars_of(addr);
    let port_chars = tail_after(&addr_chars, ':');
    let port = string_of(&port_chars);
    let next: u64 = match parse_u16(&port_chars) {
        Some(p) => if p < u16::MAX {
            p as u64 + 1
        } else {
            u16::MAX as u64
        },
        None => 7448,
    };
    let mut text = "viz の待ち受け ".to_owned();
    text.append(endpoint);
    text.append(" は既に使われています（");
    text.append(addr);
    text.append(
        "）。\ngo2-run 側が listen する側なので、このポートは空いている必要があります。\nよくある原因: (1) ROS 2 の rmw_zenoh ルータ rmw_zenohd が 7447 を使っている\n（zenoh ルータの既定ポート。ROS 2 を使うなら止めずに別番号へ逃げる）、\n(2) 前回の go2-run がまだ生きている、(3) articara の Live feed を Connect では\nなく Listen にしている。\n誰が掴んでいるか:  ss -tlnp | grep ",
    );
    text.append(port.as_str());
    text.append("    （または lsof -i :");
    text.append(port.as_str());
    text.append("）\n別ポートで逃げる:  GO2_VIZ_ENDPOINT=tcp/127.0.0.1:");
    text.append(to_decimal(next).as_str());
    text.append(" ./scripts/policy_sim.sh …\n（articara 側の endpoint も同じ番号に合わせる）");
    text
}

/// Whether a look at the port of an endpoint comes out as `result`.
pub open spec fn port_comes_out<L: Fn(&String) -> Listening>(
    endpoint: Seq<char>,
    listen: L,
    result: Result<(), String>,
) -> bool {
    if is_tcp(endpoint) && address_in(endpoint).contains(':') {
        exists|addr: String, outcome: Listening| #[trigger]
            call_ensures(listen, (&addr,), outcome) && addr@ == address_in(endpoint)
                && match result {
                Ok(_) => outcome != Listening::InUse,
                Err(text) => outcome == Listening::InUse && text@ == port_in_use(endpoint, addr@),
            }
    } else {
        result is Ok
    }
}

/// Looks whether the port of an endpoint is free, where it names one. Only a port
/// that somebody else holds is an error; every other failure, and every protocol
/// but TCP, is left to the publisher. `listen` tries to listen on an address.
pub fn check_viz_port<L: Fn(&String) -> Listening>(endpoint: &str, listen: L) -> (result: Result<
    (),
    String,
>)
    requires
        forall|addr: &String| call_requires(listen, (addr,)),
    ensures
        port_comes_out(endpoint@, listen, result),
        if is_tcp(endpoint@) && address_in(endpoint@).contains(':') {
            exists|addr: String, outcome: Listening| #[trigger]
                call_ensures(listen, (&addr,), outcome) && addr@ == address_in(endpoint@)
                    && match result {
                    Ok(_) => outcome != Listening::InUse,
                    Err(text) => outcome == Listening::InUse && text@ == port_in_use(
                        endpoint@,
                        addr@,
                    ),
                }
        } else {
            result is Ok
        },
{
    if !speaks_tcp(endpoint) {
        return Ok(());
    }
    match socket_addr_of(endpoint) {
        None => Ok(()),
        Some(addr) => {
            let outcome = listen(&addr);
            if outcome == Listening::InUse {
                Err(say_port_in_use(endpoint, addr.as_str()))
            } else {
                Ok(())
            }
        },
    }
}

/// An endpoint is taken apart at its marks: behind a protocol without a slash, up to
/// the options that start with a question mark or a hash, stands the address, and the
/// endpoint speaks TCP exactly where the protocol says so.
pub proof fn law_endpoints_come_apart(
    protocol: Seq<char>,
    addr: Seq<char>,
    options: Seq<char>,
)
    requires
        !protocol.contains('/'),
        !addr.contains('?') && !addr.contains('#'),
        options.len() > 0 ==> options[0] == '?' || options[0] == '#',
    ensures
        address_in(protocol.push('/') + addr + options) == addr,
        is_tcp(protocol.push('/') + addr + options) <==> protocol == "tcp"@,
        !addr.contains('/') && !options.contains('/') ==> address_in(addr + options) == addr
            && is_tcp(addr + options),
{
    let whole = protocol.push('/') + addr + options;
    let n = protocol.len() as int;
    assert(seq!['/'][0] == '/');
    assert forall|j: int| 0 <= j < n implies !seq!['/'].contains(#[trigger] whole[j]) by {
        assert(whole[j] == protocol[j]);
        assert(protocol.contains(protocol[j]));
    }
    assert(whole[n] == '/');
    lemma_until(whole, seq!['/'], n);
    assert(whole.take(n) =~= protocol);
    let rest = addr + options;
    assert(whole.skip(n + 1) =~= rest);
    let stops = seq!['?', '#'];
    assert(stops[0] == '?' && stops[1] == '#');
    assert forall|j: int| 0 <= j < addr.len() implies !stops.contains(#[trigger] rest[j]) by {
        assert(rest[j] == addr[j]);
        assert(addr.contains(addr[j]));
    }
    if options.len() > 0 {
        assert(rest[addr.len() as int] == options[0]);
    }
    lemma_until(rest, stops, addr.len() as int);
    assert(rest.take(addr.len() as int) =~= addr);
    if !addr.contains('/') && !options.contains('/') {
        assert forall|j: int| 0 <= j < rest.len() implies !seq!['/'].contains(
            #[trigger] rest[j],
        ) by {
            if j < addr.len() {
                assert(addr.contains(addr[j]));
                assert(rest[j] == addr[j]);
            } else {
                assert(options.contains(options[j - addr.len()]));
                assert(rest[j] == options[j - addr.len()]);
            }
        }
        lemma_until(rest, seq!['/'], rest.len() as int);
    }
}

/// The port to fall back on is the next one, up to the last there is, and the usual one
/// behind a text that is no port.
pub proof fn law_the_next_port_follows(port: Seq<char>)
    ensures
        u16_of(port) matches Some(p) ==> p < 65535 ==> next_port(port) == p + 1,
        u16_of(port) == Some(65535u16) ==> next_port(port) == 65535,
        u16_of(port) is None ==> next_port(port) == 7448,
{
}

/// What is said of a held port names the endpoint and the address first, and ends with
/// how to find who holds the port and with the next one to try.
pub proof fn law_a_held_port_is_named(endpoint: Seq<char>, addr: Seq<char>)
    ensures
        exists|middle: Seq<char>| #[trigger]
            between(middle) && port_in_use(endpoint, addr) == "viz の待ち受け "@ + endpoint
                + " は既に使われています（"@ + addr + middle + after_last(addr, ':')
                + "    （または lsof -i :"@ + after_last(addr, ':')
                + "）\n別ポートで逃げる:  GO2_VIZ_ENDPOINT=tcp/127.0.0.1:"@ + decimal(
                next_port(after_last(addr, ':')),
            ) + " ./scripts/policy_sim.sh …\n（articara 側の endpoint も同じ番号に合わせる）"@,
{
    assert(between(
        "）。\ngo2-run 側が listen する側なので、このポートは空いている必要があります。\nよくある原因: (1) ROS 2 の rmw_zenoh ルータ rmw_zenohd が 7447 を使っている\n（zenoh ルータの既定ポート。ROS 2 を使うなら止めずに別番号へ逃げる）、\n(2) 前回の go2-run がまだ生きている、(3) articara の Live feed を Connect では\nなく Listen にしている。\n誰が掴んでいるか:  ss -tlnp | grep "@,
    ));
}

/// The causes of a held port, as they are listed between the address and the port.
pub open spec fn between(middle: Seq<char>) -> bool {
    middle
        == "）。\ngo2-run 側が listen する側なので、このポートは空いている必要があります。\nよくある原因: (1) ROS 2 の rmw_zenoh ルータ rmw_zenohd が 7447 を使っている\n（zenoh ルータの既定ポート。ROS 2 を使うなら止めずに別番号へ逃げる）、\n(2) 前回の go2-run がまだ生きている、(3) articara の Live feed を Connect では\nなく Listen にしている。\n誰が掴んでいるか:  ss -tlnp | grep "@
}

/// Only a TCP port that somebody else holds stops the run: an endpoint of another
/// protocol or without a port is fine, and so is every failure to listen but that one.
pub proof fn law_only_a_held_port_stops_the_run<L: Fn(&String) -> Listening>(
    endpoint: Seq<char>,
    listen: L,
    result: Result<(), String>,
)
    requires
        port_comes_out(endpoint, listen, result),
    ensures
        !is_tcp(endpoint) ==> result is Ok,
        !address_in(endpoint).contains(':') ==> result is Ok,
        result is Err ==> exists|addr: String|
            addr@ == address_in(endpoint) && #[trigger] call_ensures(
                listen,
                (&addr,),
                Listening::InUse,
            ),
        (forall|addr: String, outcome: Listening| #[trigger]
            call_ensures(listen, (&addr,), outcome) ==> outcome == Listening::InUse) && is_tcp(
            endpoint,
        ) && address_in(endpoint).contains(':') ==> result is Err,
        (forall|addr: String, outcome: Listening| #[trigger]
            call_ensures(listen, (&addr,), outcome) ==> outcome != Listening::InUse)
            ==> result is Ok,
{
}

} // verus!
