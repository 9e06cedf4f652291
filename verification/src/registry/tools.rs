//! The tools that an agent brings along.

use crate::json::Json;
use crate::text::{concat3, decimal, decimal_text, is_blank, trim};
use vstd::prelude::*;

verus! {

/// The cost of a tool. A sum in dollars is kept as its numeral.
#[derive(Debug)]
pub struct Budget {
    pub tokens: Option<u64>,
    pub usd: Option<String>,
}

#[derive(Debug)]
pub struct Observability {
    pub tags: Vec<String>,
}

/// How a tool is reached.
#[derive(Debug)]
pub enum Transport {
    Exec { command: String, args: Vec<String> },
    Http { method: String, url: String, headers: Vec<(String, String)> },
}

#[derive(Debug)]
pub struct ToolEntry {
    pub id: String,
    pub description: String,
    pub transport: Transport,
    pub input_schema: Json,
    pub result_schema: Json,
    pub schema_refs: Vec<(String, Json)>,
    pub capabilities: Vec<String>,
    pub secrets: Vec<String>,
    pub budget: Option<Budget>,
    pub requires_confirmation: bool,
    pub observability: Option<Observability>,
}

#[derive(Debug)]
pub struct ToolsDoc {
    pub version: u32,
    pub tools: Vec<ToolEntry>,
}

pub open spec fn blank(s: Seq<char>) -> bool {
    trim(s).len() == 0
}

/// What is wrong with the way a tool is reached.
pub open spec fn transport_complaint(t: Transport) -> Option<Seq<char>> {
    match t {
        Transport::Exec { command, .. } => if blank(command@) {
            Some("exec transport requires a command"@)
        } else {
            None
        },
        Transport::Http { method, url, .. } => if blank(method@) {
            Some("http transport requires a method"@)
        } else if blank(url@) {
            Some("http transport requires a url"@)
        } else {
            None
        },
    }
}

impl Transport {
    pub fn validate(&self) -> (r: Result<(), String>)
        ensures
            match r {
                Ok(_) => transport_complaint(*self) is None,
                Err(m) => transport_complaint(*self) == Some(m@),
            },
    {
        match self {
            Transport::Exec { command, .. } => {
                if is_blank(command.as_str()) {
                    return Err("exec transport requires a command".to_owned());
                }
            },
            Transport::Http { method, url, .. } => {
                if is_blank(method.as_str()) {
                    return Err("http transport requires a method".to_owned());
                }
                if is_blank(url.as_str()) {
                    return Err("http transport requires a url".to_owned());
                }
            },
        }
        Ok(())
    }
}

/// What is wrong with a tool.
pub open spec fn tool_complaint(t: ToolEntry) -> Option<Seq<char>> {
    if blank(t.id@) {
        Some("tool id cannot be empty"@)
    } else if blank(t.description@) {
        Some("description cannot be empty"@)
    } else {
        transport_complaint(t.transport)
    }
}

impl ToolEntry {
    pub fn validate(&self) -> (r: Result<(), String>)
        ensures
            match r {
                Ok(_) => tool_complaint(*self) is None,
                Err(m) => tool_complaint(*self) == Some(m@),
            },
    {
        if is_blank(self.id.as_str()) {
            return Err("tool id cannot be empty".to_owned());
        }
        if is_blank(self.description.as_str()) {
            return Err("description cannot be empty".to_owned());
        }
        self.transport.validate()
    }
}

/// What is wrong with the tools from the `i`-th on; the first complaint, with its place.
pub open spec fn tools_complaint(tools: Seq<ToolEntry>, i: int) -> Option<Seq<char>>
    decreases tools.len() - i,
{
    if i < 0 || i >= tools.len() {
        None
    } else {
        match tool_complaint(tools[i]) {
            Some(m) => Some("tool #"@ + decimal(i as nat) + ": "@ + m),
            None => tools_complaint(tools, i + 1),
        }
    }
}

pub open spec fn doc_complaint(d: ToolsDoc) -> Option<Seq<char>> {
    if d.version != 1 {
        Some("unsupported tools.json version "@ + decimal(d.version as nat) + " (expected 1)"@)
    } else {
        tools_complaint(d.tools@, 0)
    }
}

impl ToolsDoc {
    pub fn validate(&self) -> (r: Result<(), String>)
        ensures
            match r {
                Ok(_) => doc_complaint(*self) is None,
                Err(m) => doc_complaint(*self) == Some(m@),
            },
    {
        if self.version != 1 {
            return Err(
                concat3(
                    "unsupported tools.json version ",
                    decimal_text(self.version as u64).as_str(),
                    " (expected 1)",
                ),
            );
        }
        let mut i: usize = 0;
        while i < self.tools.len()
            invariant
                i <= self.tools.len(),
                self.version == 1,
                tools_complaint(self.tools@, 0) == tools_complaint(self.tools@, i as int),
            decreases self.tools.len() - i,
        {
            match self.tools[i].validate() {
                Ok(_) => {},
                Err(m) => {
                    let mut t = concat3("tool #", decimal_text(i as u64).as_str(), ": ");
                    t.append(m.as_str());
                    return Err(t);
                },
            }
            i += 1;
        }
        Ok(())
    }
}

} // verus!
