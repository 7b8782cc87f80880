//! The output shapes the listing command can render.

use vstd::prelude::*;

use crate::text::str_eq;

verus! {

/// How a listing is rendered.
#[derive(Debug, Clone, Copy, PartialEq, Eq, Structural)]
pub enum PrintFormat {
    Json,
    Table,
    List,
}

impl PrintFormat {
    /// The accepted format names.
    pub fn variants() -> (r: Vec<&'static str>)
        ensures
            r@.len() == 3,
            r@[0]@ == "table"@,
            r@[1]@ == "list"@,
            r@[2]@ == "json"@,
    {
        let mut v: Vec<&'static str> = Vec::new();
        v.push("table");
        v.push("list");
        v.push("json");
        v
    }

    /// Reads a format name; exactly the three accepted names are understood,
    /// case-sensitively, and everything else is rejected with a message that
    /// names the rejected input.
    pub fn from_str(s: &str) -> (r: Result<PrintFormat, String>)
        ensures
            s@ == "table"@ ==> r == Ok::<PrintFormat, String>(PrintFormat::Table),
            s@ == "list"@ ==> r == Ok::<PrintFormat, String>(PrintFormat::List),
            s@ == "json"@ ==> r == Ok::<PrintFormat, String>(PrintFormat::Json),
            !(s@ == "table"@ || s@ == "list"@ || s@ == "json"@) ==> (r matches Err(e) && e@
                == "I don't know what \""@ + s@ + "\" means"@),
    {
        proof {
            reveal_strlit("table");
            reveal_strlit("list");
            reveal_strlit("json");
            assert("table"@.len() == 5 && "list"@.len() == 4 && "json"@.len() == 4);
            assert("list"@[0] == 'l' && "json"@[0] == 'j');
            assert("table"@ != "list"@ && "table"@ != "json"@ && "list"@ != "json"@);
        }
        if str_eq(s, "table") {
            Ok(PrintFormat::Table)
        } else if str_eq(s, "list") {
            Ok(PrintFormat::List)
        } else if str_eq(s, "json") {
            Ok(PrintFormat::Json)
        } else {
            let mut msg = "I don't know what \"".to_owned();
            msg.append(s);
            msg.append("\" means");
            Err(msg)
        }
    }
}

} // verus!
