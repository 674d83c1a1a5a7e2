//! Which cluster a request goes to: contact points, credentials and keyspace.
use crate::json::{
    json_array, json_get, json_i64, json_str, json_str_at, json_views, Json, JsonView, NumberView,
};
use crate::text::{contains_char, integer_text, integer_to_string, split, split_text};
use vstd::prelude::*;
use vstd::string::*;

verus! {

/// What a session is opened with, and the key under which it is kept.
#[derive(Debug, PartialEq, Eq)]
pub struct ConnKey {
    pub nodes: Vec<String>,
    pub username: String,
    pub password: String,
    pub keyspace: String,
}

/// The view of a [`ConnKey`].
#[verifier::ext_equal]
pub struct ConnView {
    pub nodes: Seq<Seq<char>>,
    pub username: Seq<char>,
    pub password: Seq<char>,
    pub keyspace: Seq<char>,
}

impl View for ConnKey {
    type V = ConnView;

    open spec fn view(&self) -> ConnView {
        ConnView {
            nodes: string_views(self.nodes@),
            username: self.username@,
            password: self.password@,
            keyspace: self.keyspace@,
        }
    }
}

/// The texts that the strings hold.
pub open spec fn string_views(strings: Seq<String>) -> Seq<Seq<char>> {
    strings.map_values(|s: String| s@)
}

/// The text of a string that may be absent.
pub open spec fn optional_text(text: Option<&str>) -> Option<Seq<char>> {
    match text {
        Some(s) => Some(s@),
        None => None,
    }
}

/// Copies the contact points.
pub(crate) fn copy_nodes(nodes: &Vec<String>) -> (copies: Vec<String>)
    ensures
        string_views(copies@) == string_views(nodes@),
{
    let mut copies: Vec<String> = Vec::new();
    let mut i: usize = 0;
    while i < nodes.len()
        invariant
            0 <= i <= nodes@.len(),
            copies@.len() == i,
            forall|k: int| 0 <= k < i ==> (#[trigger] copies@[k])@ == nodes@[k]@,
        decreases nodes@.len() - i,
    {
        copies.push(nodes[i].clone());
        i += 1;
    }
    proof {
        assert(string_views(copies@) =~= string_views(nodes@));
    }
    copies
}

impl Clone for ConnKey {
    fn clone(&self) -> (copy: Self)
        ensures
            copy@ == self@,
    {
        ConnKey {
            nodes: copy_nodes(&self.nodes),
            username: self.username.clone(),
            password: self.password.clone(),
            keyspace: self.keyspace.clone(),
        }
    }
}

// ── contact points ──────────────────────────────────────────────────────────

/// The contact point with a port: the default CQL port where it names none.
pub open spec fn with_default_port(node: Seq<char>) -> Seq<char> {
    if node.contains(':') {
        node
    } else {
        node + ":9042"@
    }
}

/// The contact point with the given port, where it names none itself.
pub open spec fn with_port(node: Seq<char>, port: Option<int>) -> Seq<char> {
    match port {
        Some(p) => if node.contains(':') {
            node
        } else {
            node + ":"@ + integer_text(p)
        },
        None => with_default_port(node),
    }
}

/// Adds the default CQL port (9042) when a contact point omits it.
pub fn normalize_node(s: &str) -> (node: String)
    ensures
        node@ == with_default_port(s@),
{
    if contains_char(s, ':') {
        s.to_owned()
    } else {
        let mut node: String = s.to_owned();
        node.append(":9042");
        node
    }
}

/// The contact points among the items: the strings, each with a port.
pub open spec fn listed_nodes(items: Seq<JsonView>) -> Seq<Seq<char>>
    decreases items.len(),
{
    if items.len() == 0 {
        seq![]
    } else {
        match json_str(items.last()) {
            Some(s) => listed_nodes(items.drop_last()).push(with_default_port(s)),
            None => listed_nodes(items.drop_last()),
        }
    }
}

/// The one contact point that the options name: `node`, or `host` where there is
/// no `node`.
pub open spec fn named_node(opts: JsonView) -> Option<Seq<char>> {
    match json_get(opts, "node"@) {
        Some(v) => json_str(v),
        None => json_str_at(opts, "host"@),
    }
}

/// The port that the options name.
pub open spec fn named_port(opts: JsonView) -> Option<int> {
    match json_get(opts, "port"@) {
        Some(v) => json_i64(v),
        None => None,
    }
}

/// The array under `nodes`.
pub open spec fn nodes_option(opts: JsonView) -> Option<Seq<JsonView>> {
    match json_get(opts, "nodes"@) {
        Some(v) => json_array(v),
        None => None,
    }
}

/// The contact points that the options give. An array under `nodes` overrides
/// `node` and `host`.
pub open spec fn given_nodes(opts: JsonView) -> Seq<Seq<char>> {
    match nodes_option(opts) {
        Some(items) => listed_nodes(items),
        None => match named_node(opts) {
            Some(node) => seq![with_port(node, named_port(opts))],
            None => seq![],
        },
    }
}

/// The pieces that are not empty, each with a port.
pub open spec fn piece_nodes(pieces: Seq<Seq<char>>) -> Seq<Seq<char>>
    decreases pieces.len(),
{
    if pieces.len() == 0 {
        seq![]
    } else if pieces.last().len() == 0 {
        piece_nodes(pieces.drop_last())
    } else {
        piece_nodes(pieces.drop_last()).push(with_default_port(pieces.last()))
    }
}

/// The contact points of a comma-separated list.
pub open spec fn env_nodes(list: Option<Seq<char>>) -> Seq<Seq<char>> {
    match list {
        Some(text) => piece_nodes(split_text(text, ',')),
        None => seq![],
    }
}

/// The contact points that a session is opened with: those that the options give,
/// else those of the environment's list, else the local host.
pub open spec fn resolved_nodes(opts: JsonView, env: Option<Seq<char>>) -> Seq<Seq<char>> {
    if given_nodes(opts).len() > 0 {
        given_nodes(opts)
    } else if env_nodes(env).len() > 0 {
        env_nodes(env)
    } else {
        seq!["127.0.0.1:9042"@]
    }
}

/// The string under the key, or the empty text.
pub open spec fn text_option(opts: JsonView, key: Seq<char>) -> Seq<char> {
    match json_str_at(opts, key) {
        Some(s) => s,
        None => seq![],
    }
}

/// What the options resolve to, with the environment's list of contact points.
pub open spec fn resolved_conn(opts: JsonView, env: Option<Seq<char>>) -> ConnView {
    ConnView {
        nodes: resolved_nodes(opts, env),
        username: text_option(opts, "username"@),
        password: text_option(opts, "password"@),
        keyspace: text_option(opts, "keyspace"@),
    }
}

/// The string under the key.
pub fn opt_str<'a>(v: &'a Json, key: &str) -> (text: Option<&'a str>)
    ensures
        optional_text(text) == json_str_at(v@, key@),
{
    match v.get(key) {
        Some(x) => x.as_str(),
        None => None,
    }
}

/// The contact points among the items.
fn collect_nodes(items: &Vec<Json>) -> (nodes: Vec<String>)
    ensures
        string_views(nodes@) == listed_nodes(json_views(items@)),
{
    let ghost views = json_views(items@);
    let mut nodes: Vec<String> = Vec::new();
    let mut i: usize = 0;
    while i < items.len()
        invariant
            0 <= i <= items@.len(),
            views == json_views(items@),
            string_views(nodes@) == listed_nodes(views.take(i as int)),
        decreases items@.len() - i,
    {
        let ghost before = string_views(nodes@);
        proof {
            assert(views.take(i + 1).drop_last() =~= views.take(i as int));
            assert(views.take(i + 1).last() == items@[i as int]@);
        }
        if let Some(s) = items[i].as_str() {
            nodes.push(normalize_node(s));
            proof {
                assert(string_views(nodes@) =~= before.push(with_default_port(s@)));
            }
        }
        i += 1;
    }
    proof {
        assert(views.take(items@.len() as int) =~= views);
    }
    nodes
}

/// The contact points of a comma-separated list.
fn collect_env_nodes(list: &str) -> (nodes: Vec<String>)
    ensures
        string_views(nodes@) == env_nodes(Some(list@)),
{
    let pieces: Vec<String> = split(list, ',');
    let ghost views = string_views(pieces@);
    let mut nodes: Vec<String> = Vec::new();
    let mut i: usize = 0;
    while i < pieces.len()
        invariant
            0 <= i <= pieces@.len(),
            views == string_views(pieces@),
            string_views(nodes@) == piece_nodes(views.take(i as int)),
        decreases pieces@.len() - i,
    {
        let ghost before = string_views(nodes@);
        proof {
            assert(views.take(i + 1).drop_last() =~= views.take(i as int));
            assert(views.take(i + 1).last() == pieces@[i as int]@);
        }
        if !pieces[i].as_str().is_empty() {
            nodes.push(normalize_node(pieces[i].as_str()));
            proof {
                assert(string_views(nodes@) =~= before.push(
                    with_default_port(pieces@[i as int]@),
                ));
            }
        }
        i += 1;
    }
    proof {
        assert(views.take(pieces@.len() as int) =~= views);
    }
    nodes
}

/// The contact points that the options give.
fn opts_nodes(opts: &Json) -> (nodes: Vec<String>)
    ensures
        string_views(nodes@) == given_nodes(opts@),
{
    if let Some(v) = opts.get("nodes") {
        if let Some(items) = v.as_array() {
            return collect_nodes(items);
        }
    }
    let named: Option<&str> = match opts.get("node") {
        Some(v) => v.as_str(),
        None => opt_str(opts, "host"),
    };
    let mut nodes: Vec<String> = Vec::new();
    if let Some(n) = named {
        let port: Option<i64> = match opts.get("port") {
            Some(v) => v.as_i64(),
            None => None,
        };
        let node: String = match port {
            Some(p) => if contains_char(n, ':') {
                normalize_node(n)
            } else {
                let mut text: String = n.to_owned();
                text.append(":");
                text.append(integer_to_string(p).as_str());
                text
            },
            None => normalize_node(n),
        };
        proof {
            assert(node@ == with_port(n@, named_port(opts@)));
        }
        nodes.push(node);
    }
    proof {
        assert(string_views(nodes@) =~= given_nodes(opts@));
    }
    nodes
}

/// The string under the key, or the empty text.
fn text_or_empty(opts: &Json, key: &str) -> (text: String)
    ensures
        text@ == text_option(opts@, key@),
{
    match opt_str(opts, key) {
        Some(s) => s.to_owned(),
        None => String::new(),
    }
}

/// Resolves contact points, credentials and keyspace from the options, and from
/// the environment's comma-separated list of contact points where the options
/// give none. Accepts `nodes` (array of `host` or `host:port`), or `node` or
/// `host` (with `port`). The default is `127.0.0.1:9042`.
pub fn resolve_conn(opts: &Json, env: Option<&str>) -> (key: ConnKey)
    ensures
        key@ == resolved_conn(opts@, optional_text(env)),
{
    let mut nodes: Vec<String> = opts_nodes(opts);
    if nodes.is_empty() {
        if let Some(list) = env {
            nodes = collect_env_nodes(list);
        }
    }
    if nodes.is_empty() {
        nodes.push("127.0.0.1:9042".to_owned());
        proof {
            assert(string_views(nodes@) =~= seq!["127.0.0.1:9042"@]);
        }
    }
    ConnKey {
        nodes,
        username: text_or_empty(opts, "username"),
        password: text_or_empty(opts, "password"),
        keyspace: text_or_empty(opts, "keyspace"),
    }
}

/// Resolves contact points, credentials and keyspace from the options alone.
pub fn conn_from_opts(opts: &Json) -> (key: ConnKey)
    ensures
        key@ == resolved_conn(opts@, None),
{
    resolve_conn(opts, None)
}

// ── laws ────────────────────────────────────────────────────────────────────

/// A contact point with its port names a port.
proof fn lemma_port_named(node: Seq<char>, port: Option<int>)
    ensures
        with_default_port(node).contains(':'),
        with_port(node, port).contains(':'),
{
    reveal_strlit(":9042");
    reveal_strlit(":");
    if !node.contains(':') {
        assert((node + ":9042"@)[node.len() as int] == ':');
        if let Some(p) = port {
            assert((node + ":"@ + integer_text(p))[node.len() as int] == ':');
        }
    }
}

/// A normalized contact point names a port, and normalizing it again changes
/// nothing.
pub proof fn law_normalizing_twice_is_normalizing_once(node: Seq<char>)
    ensures
        with_default_port(node).contains(':'),
        with_default_port(with_default_port(node)) == with_default_port(node),
{
    lemma_port_named(node, None);
}

proof fn lemma_listed_nodes_name_ports(items: Seq<JsonView>)
    ensures
        forall|i: int|
            0 <= i < listed_nodes(items).len() ==> (#[trigger] listed_nodes(items)[i]).contains(
                ':',
            ),
    decreases items.len(),
{
    if items.len() > 0 {
        lemma_listed_nodes_name_ports(items.drop_last());
        if let Some(s) = json_str(items.last()) {
            lemma_port_named(s, None);
        }
        let shorter = listed_nodes(items.drop_last());
        assert forall|i: int| 0 <= i < listed_nodes(items).len() implies (#[trigger] listed_nodes(
            items,
        )[i]).contains(':') by {
            if i < shorter.len() {
                assert(listed_nodes(items)[i] == shorter[i]);
            }
        }
    }
}

proof fn lemma_piece_nodes_name_ports(pieces: Seq<Seq<char>>)
    ensures
        forall|i: int|
            0 <= i < piece_nodes(pieces).len() ==> (#[trigger] piece_nodes(pieces)[i]).contains(
                ':',
            ),
    decreases pieces.len(),
{
    if pieces.len() > 0 {
        lemma_piece_nodes_name_ports(pieces.drop_last());
        lemma_port_named(pieces.last(), None);
        let shorter = piece_nodes(pieces.drop_last());
        assert forall|i: int| 0 <= i < piece_nodes(pieces).len() implies (#[trigger] piece_nodes(
            pieces,
        )[i]).contains(':') by {
            if i < shorter.len() {
                assert(piece_nodes(pieces)[i] == shorter[i]);
            }
        }
    }
}

/// Whatever the options and the environment hold, there is a contact point, and
/// each one names a port.
pub proof fn law_contact_points_name_their_port(opts: JsonView, env: Option<Seq<char>>)
    ensures
        resolved_nodes(opts, env).len() > 0,
        forall|i: int|
            0 <= i < resolved_nodes(opts, env).len() ==> (#[trigger] resolved_nodes(
                opts,
                env,
            )[i]).contains(':'),
{
    reveal_strlit("127.0.0.1:9042");
    assert("127.0.0.1:9042"@[9] == ':');
    if let Some(items) = nodes_option(opts) {
        lemma_listed_nodes_name_ports(items);
    }
    if let Some(node) = named_node(opts) {
        lemma_port_named(node, named_port(opts));
    }
    if let Some(list) = env {
        lemma_piece_nodes_name_ports(split_text(list, ','));
    }
}

/// An array under `nodes` decides alone: options with the same array give the
/// same contact points, whatever they hold under `node`, `host` and `port`.
pub proof fn law_nodes_override_node_and_host(a: JsonView, b: JsonView)
    requires
        nodes_option(a) is Some,
        nodes_option(a) == nodes_option(b),
    ensures
        given_nodes(a) == given_nodes(b),
{
}

/// Contact points in the options are taken as they are: the environment's list
/// counts only where the options give none.
pub proof fn law_environment_is_a_fallback(
    opts: JsonView,
    env: Option<Seq<char>>,
    other: Option<Seq<char>>,
)
    requires
        given_nodes(opts).len() > 0,
    ensures
        resolved_conn(opts, env) == resolved_conn(opts, other),
{
}

/// A contact point that names a port stays as it is; to any other the default port is
/// added, and nothing else.
pub proof fn law_default_port_is_added(node: Seq<char>)
    ensures
        node.contains(':') ==> with_default_port(node) == node,
        !node.contains(':') ==> with_default_port(node) == node + seq![':', '9', '0', '4', '2'],
{
    reveal_strlit(":9042");
    assert(":9042"@ =~= seq![':', '9', '0', '4', '2']);
}

/// A port that is given is added where the contact point names none, as its numeral
/// behind a colon. Without one the default port is added.
pub proof fn law_given_port_is_added(node: Seq<char>, port: int)
    ensures
        node.contains(':') ==> with_port(node, Some(port)) == node,
        !node.contains(':') ==> with_port(node, Some(port)) == node + seq![':'] + integer_text(port),
        with_port(node, None) == with_default_port(node),
{
    reveal_strlit(":");
    assert(":"@ =~= seq![':']);
}

/// The contact points of a list are its strings, each with a port, in their order: a
/// string gives one, anything else none, and a list gives what its parts give.
pub proof fn law_every_listed_string_is_a_contact_point(
    a: Seq<JsonView>,
    b: Seq<JsonView>,
    s: Seq<char>,
    v: JsonView,
)
    ensures
        listed_nodes(seq![]) == Seq::<Seq<char>>::empty(),
        listed_nodes(seq![JsonView::String(s)]) == seq![with_default_port(s)],
        !(v is String) ==> listed_nodes(seq![v]) == Seq::<Seq<char>>::empty(),
        listed_nodes(a + b) == listed_nodes(a) + listed_nodes(b),
    decreases b.len(),
{
    reveal_with_fuel(listed_nodes, 2);
    assert(seq![v].drop_last() =~= Seq::<JsonView>::empty());
    assert(seq![JsonView::String(s)].drop_last() =~= Seq::<JsonView>::empty());
    assert(listed_nodes(seq![JsonView::String(s)]) =~= seq![with_default_port(s)]);
    if b.len() == 0 {
        assert(a + b =~= a);
        assert(listed_nodes(a + b) =~= listed_nodes(a) + listed_nodes(b));
    } else {
        assert((a + b).drop_last() =~= a + b.drop_last());
        assert((a + b).last() == b.last());
        law_every_listed_string_is_a_contact_point(a, b.drop_last(), s, v);
        assert(listed_nodes(a + b) =~= listed_nodes(a) + listed_nodes(b));
    }
}

/// The contact points of the environment's list are its pieces between commas that are
/// not empty, each with a port, in their order.
pub proof fn law_every_listed_piece_is_a_contact_point(
    a: Seq<Seq<char>>,
    b: Seq<Seq<char>>,
    piece: Seq<char>,
    text: Seq<char>,
)
    ensures
        env_nodes(None) == Seq::<Seq<char>>::empty(),
        env_nodes(Some(text)) == piece_nodes(split_text(text, ',')),
        piece_nodes(seq![]) == Seq::<Seq<char>>::empty(),
        piece.len() == 0 ==> piece_nodes(seq![piece]) == Seq::<Seq<char>>::empty(),
        piece.len() > 0 ==> piece_nodes(seq![piece]) == seq![with_default_port(piece)],
        piece_nodes(a + b) == piece_nodes(a) + piece_nodes(b),
    decreases b.len(),
{
    reveal_with_fuel(piece_nodes, 2);
    assert(seq![piece].drop_last() =~= Seq::<Seq<char>>::empty());
    if piece.len() > 0 {
        assert(piece_nodes(seq![piece]) =~= seq![with_default_port(piece)]);
    }
    if b.len() == 0 {
        assert(a + b =~= a);
        assert(piece_nodes(a + b) =~= piece_nodes(a) + piece_nodes(b));
    } else {
        assert((a + b).drop_last() =~= a + b.drop_last());
        assert((a + b).last() == b.last());
        law_every_listed_piece_is_a_contact_point(a, b.drop_last(), piece, text);
        assert(piece_nodes(a + b) =~= piece_nodes(a) + piece_nodes(b));
    }
}

/// An array under `nodes` gives the contact points, as long as one of its items is a
/// string.
pub proof fn law_nodes_are_connected_to(
    opts: JsonView,
    items: Seq<JsonView>,
    env: Option<Seq<char>>,
)
    requires
        json_get(opts, "nodes"@) == Some(JsonView::Array(items)),
        exists|i: int| 0 <= i < items.len() && #[trigger] items[i] is String,
    ensures
        resolved_conn(opts, env).nodes == listed_nodes(items),
        resolved_conn(opts, env).nodes.len() > 0,
{
    let i = choose|i: int| 0 <= i < items.len() && #[trigger] items[i] is String;
    let head = items.take(i);
    let tail = items.skip(i + 1);
    let s = items[i]->String_0;
    assert(items =~= head + seq![JsonView::String(s)] + tail);
    law_every_listed_string_is_a_contact_point(head + seq![JsonView::String(s)], tail, s, items[i]);
    law_every_listed_string_is_a_contact_point(head, seq![JsonView::String(s)], s, items[i]);
}

/// Without an array under `nodes`, the string under `node` is the contact point, or the
/// string under `host` where there is no `node`; with the integer under `port`, where
/// it names no port itself.
pub proof fn law_node_or_host_is_connected_to(
    opts: JsonView,
    node: Seq<char>,
    env: Option<Seq<char>>,
)
    requires
        !(json_get(opts, "nodes"@) matches Some(JsonView::Array(_))),
        json_get(opts, "node"@) == Some(JsonView::String(node)) || (json_get(opts, "node"@) is None
            && json_get(opts, "host"@) == Some(JsonView::String(node))),
    ensures
        node.contains(':') ==> resolved_conn(opts, env).nodes == seq![node],
        forall|port: int|
            #![trigger integer_text(port)]
            !node.contains(':') && json_get(opts, "port"@) == Some(
                JsonView::Number(NumberView::Int(port)),
            ) && -0x8000_0000_0000_0000 <= port <= 0x7fff_ffff_ffff_ffff ==> resolved_conn(
                opts,
                env,
            ).nodes == seq![node + seq![':'] + integer_text(port)],
        !node.contains(':') && !(json_get(opts, "port"@) matches Some(
            JsonView::Number(NumberView::Int(port)),
        ) && -0x8000_0000_0000_0000 <= port <= 0x7fff_ffff_ffff_ffff) ==> resolved_conn(
            opts,
            env,
        ).nodes == seq![node + seq![':', '9', '0', '4', '2']],
{
    law_default_port_is_added(node);
    assert forall|port: int| true implies with_port(node, Some(port)) == (if node.contains(':') {
        node
    } else {
        node + seq![':'] + #[trigger] integer_text(port)
    }) by {
        law_given_port_is_added(node, port);
    }
    assert(given_nodes(opts) == seq![with_port(node, named_port(opts))]);
    if let Some(p) = named_port(opts) {
        law_given_port_is_added(node, p);
    }
}

/// Options that give no contact point leave it to the environment's list, and where
/// that names none either, the local host is connected to. They give none where the
/// array under `nodes` holds no string, whatever else there is; and without such an
/// array, where what stands under `node` is no string, whatever `host` is, or there is
/// no `node` and no string under `host`.
pub proof fn law_without_nodes_the_local_host_is_connected_to(
    opts: JsonView,
    env: Option<Seq<char>>,
)
    requires
        match json_get(opts, "nodes"@) {
            Some(JsonView::Array(items)) => forall|i: int|
                0 <= i < items.len() ==> !((#[trigger] items[i]) is String),
            _ => match json_get(opts, "node"@) {
                Some(v) => !(v is String),
                None => !(json_get(opts, "host"@) matches Some(JsonView::String(_))),
            },
        },
    ensures
        env_nodes(env).len() > 0 ==> resolved_conn(opts, env).nodes == env_nodes(env),
        env_nodes(env).len() == 0 ==> resolved_conn(opts, env).nodes == seq!["127.0.0.1:9042"@],
        env is None ==> resolved_conn(opts, env).nodes == seq!["127.0.0.1:9042"@],
{
    if let Some(JsonView::Array(items)) = json_get(opts, "nodes"@) {
        lemma_no_strings_no_nodes(items);
    }
}

/// A list without strings gives no contact points.
proof fn lemma_no_strings_no_nodes(items: Seq<JsonView>)
    requires
        forall|i: int| 0 <= i < items.len() ==> !((#[trigger] items[i]) is String),
    ensures
        listed_nodes(items).len() == 0,
    decreases items.len(),
{
    if items.len() > 0 {
        let shorter = items.drop_last();
        assert forall|i: int| 0 <= i < shorter.len() implies !((#[trigger] shorter[i])
            is String) by {
            assert(shorter[i] == items[i]);
        }
        assert(!(items[items.len() - 1] is String));
        lemma_no_strings_no_nodes(shorter);
    }
}

/// User, password and keyspace are the strings under those names, each on its own, and
/// empty where there is none.
pub proof fn law_credentials_and_keyspace_are_taken_as_given(
    opts: JsonView,
    env: Option<Seq<char>>,
    s: Seq<char>,
)
    ensures
        json_get(opts, "username"@) == Some(JsonView::String(s)) ==> resolved_conn(
            opts,
            env,
        ).username == s,
        json_get(opts, "password"@) == Some(JsonView::String(s)) ==> resolved_conn(
            opts,
            env,
        ).password == s,
        json_get(opts, "keyspace"@) == Some(JsonView::String(s)) ==> resolved_conn(
            opts,
            env,
        ).keyspace == s,
        !(json_get(opts, "username"@) matches Some(JsonView::String(_))) ==> resolved_conn(
            opts,
            env,
        ).username.len() == 0,
        !(json_get(opts, "password"@) matches Some(JsonView::String(_))) ==> resolved_conn(
            opts,
            env,
        ).password.len() == 0,
        !(json_get(opts, "keyspace"@) matches Some(JsonView::String(_))) ==> resolved_conn(
            opts,
            env,
        ).keyspace.len() == 0,
        resolved_conn(opts, env).nodes == resolved_nodes(opts, env),
{
}

/// A key is seen with its contact points, in their order, its user, its password and
/// its keyspace, so keys that differ in one of them are different keys.
pub proof fn law_keys_are_seen_whole(a: ConnKey, b: ConnKey, strings: Seq<String>, i: int, text: &str)
    ensures
        a@.username == a.username@ && a@.password == a.password@ && a@.keyspace == a.keyspace@,
        a@.nodes.len() == a.nodes@.len(),
        0 <= i < a.nodes@.len() ==> a@.nodes[i] == a.nodes@[i]@,
        a@ == b@ ==> a.username@ == b.username@ && a.password@ == b.password@ && a.keyspace@
            == b.keyspace@ && a.nodes@.len() == b.nodes@.len() && (0 <= i < a.nodes@.len()
            ==> a.nodes@[i]@ == b.nodes@[i]@),
        string_views(strings).len() == strings.len(),
        0 <= i < strings.len() ==> string_views(strings)[i] == strings[i]@,
        optional_text(Some(text)) == Some(text@),
        optional_text(None) is None,
{
    if a@ == b@ {
        assert(a@.nodes.len() == a.nodes@.len() && b@.nodes.len() == b.nodes@.len());
        assert(a@.nodes == b@.nodes);
        if 0 <= i < a.nodes@.len() {
            assert(a@.nodes[i] == a.nodes@[i]@);
            assert(b@.nodes[i] == b.nodes@[i]@);
        }
    }
}

}
