//! The connection report of the configured MCP servers.

use vstd::prelude::*;

verus! {

/// How connecting one MCP server went.
#[derive(Debug, Clone)]
pub struct McpServerStatus {
    pub name: String,
    pub connected: bool,
    /// tools registered (not counted per server: always 0)
    pub tool_count: usize,
    /// why connecting failed
    pub error: Option<String>,
}

/// A tool that a connected server offers.
#[derive(Debug, Clone)]
pub struct McpToolDef {
    pub name: String,
    pub description: String,
    /// JSON Schema text
    pub parameters: String,
}

/// The first connection error reported under a server's name.
pub open spec fn first_error_of(errors: Seq<(Seq<char>, Seq<char>)>, name: Seq<char>) -> Option<Seq<char>>
    decreases errors.len(),
{
    if errors.len() == 0 {
        None
    } else if errors[0].0 == name {
        Some(errors[0].1)
    } else {
        first_error_of(errors.drop_first(), name)
    }
}

pub open spec fn errors_v(errors: Seq<(String, String)>) -> Seq<(Seq<char>, Seq<char>)> {
    errors.map_values(|e: (String, String)| (e.0@, e.1@))
}

/// The status of one server: failed with the first error reported under its
/// name, else connected.
pub open spec fn status_matches(s: McpServerStatus, name: Seq<char>, errors: Seq<(Seq<char>, Seq<char>)>) -> bool {
    &&& s.name@ == name
    &&& s.tool_count == 0
    &&& match first_error_of(errors, name) {
        Some(e) => !s.connected && (s.error matches Some(x) && x@ == e),
        None => s.connected && s.error is None,
    }
}

fn find_error(errors: &Vec<(String, String)>, name: &String) -> (r: Option<String>)
    ensures
        match (r, first_error_of(errors_v(errors@), name@)) {
            (Some(x), Some(e)) => x@ == e,
            (None, None) => true,
            _ => false,
        },
{
    let ghost ev = errors_v(errors@);
    let n = errors.len();
    let mut i: usize = 0;
    assert(ev.skip(0) =~= ev);
    while i < n
        invariant
            n == errors@.len(),
            ev == errors_v(errors@),
            i <= n,
            first_error_of(ev, name@) == first_error_of(ev.skip(i as int), name@),
        decreases n - i,
    {
        assert(ev.skip(i as int)[0] == ev[i as int]);
        assert(ev.skip(i as int).drop_first() =~= ev.skip(i + 1));
        if errors[i].0 == *name {
            return Some(errors[i].1.clone());
        }
        i = i + 1;
    }
    assert(ev.skip(n as int) =~= Seq::<(Seq<char>, Seq<char>)>::empty());
    None
}

/// The status of every configured server, in configuration order, from the
/// connection errors (server name, message) that connecting reported.
pub fn server_statuses(names: &Vec<String>, errors: &Vec<(String, String)>) -> (r: Vec<McpServerStatus>)
    ensures
        r@.len() == names@.len(),
        forall|i: int|
            0 <= i < names@.len() ==> status_matches(#[trigger] r@[i], names@[i]@, errors_v(errors@)),
{
    let n = names.len();
    let mut out: Vec<McpServerStatus> = Vec::new();
    let mut i: usize = 0;
    while i < n
        invariant
            n == names@.len(),
            i <= n,
            out@.len() == i,
            forall|k: int|
                0 <= k < i ==> status_matches(#[trigger] out@[k], names@[k]@, errors_v(errors@)),
        decreases n - i,
    {
        let name = &names[i];
        let status = match find_error(errors, name) {
            Some(e) => McpServerStatus {
                name: name.clone(),
                connected: false,
                tool_count: 0,
                error: Some(e),
            },
            None => McpServerStatus { name: name.clone(), connected: true, tool_count: 0, error: None },
        };
        out.push(status);
        i = i + 1;
    }
    out
}

} // verus!
