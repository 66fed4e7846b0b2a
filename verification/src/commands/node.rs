//! `node`: how brokers are shown.

use vstd::prelude::*;
use crate::cli::output::TableRow;
use crate::client::types::BrokerInfo;
use crate::number::{i32_text, int_text};
use crate::text::views;

verus! {

impl TableRow for BrokerInfo {
    open spec fn header_cells(&self) -> Seq<Seq<char>> {
        seq!["ID"@, "HOST"@, "PORT"@, "CONTROLLER"@]
    }

    open spec fn row_cells(&self) -> Seq<Seq<char>> {
        seq![
            int_text(self.id as int),
            self.host@,
            int_text(self.port as int),
            if self.is_controller {
                "true"@
            } else {
                Seq::empty()
            },
        ]
    }

    fn headers(&self) -> (r: Vec<String>) {
        let mut r: Vec<String> = Vec::new();
        r.push(String::from_str("ID"));
        r.push(String::from_str("HOST"));
        r.push(String::from_str("PORT"));
        r.push(String::from_str("CONTROLLER"));
        assert(views(r@) =~= self.header_cells());
        r
    }

    fn row(&self) -> (r: Vec<String>) {
        let mut r: Vec<String> = Vec::new();
        r.push(i32_text(self.id));
        r.push(self.host.clone());
        r.push(i32_text(self.port));
        r.push(
            if self.is_controller {
                String::from_str("true")
            } else {
                String::new()
            },
        );
        assert(views(r@) =~= self.row_cells());
        r
    }
}

/// In the brokers table, the cell under each column title is that field of
/// the broker: its id under ID, its host under HOST, its port under PORT,
/// and `true` under CONTROLLER exactly for the controller.
pub proof fn law_broker_cells_under_titles(b: BrokerInfo)
    ensures
        b.row_cells().len() == b.header_cells().len(),
        forall|i: int| 0 <= i < b.header_cells().len() ==> {
            let h = #[trigger] b.header_cells()[i];
            let c = b.row_cells()[i];
            &&& h == "ID"@ ==> c == int_text(b.id as int)
            &&& h == "HOST"@ ==> c == b.host@
            &&& h == "PORT"@ ==> c == int_text(b.port as int)
            &&& h == "CONTROLLER"@ ==> (c == "true"@ <==> b.is_controller) && (!b.is_controller
                ==> c.len() == 0)
        },
{
    reveal_strlit("ID");
    assert("ID"@.len() == 2 && "ID"@[0] == 'I');
    reveal_strlit("HOST");
    assert("HOST"@.len() == 4 && "HOST"@[0] == 'H');
    reveal_strlit("PORT");
    assert("PORT"@.len() == 4 && "PORT"@[0] == 'P');
    reveal_strlit("CONTROLLER");
    assert("CONTROLLER"@.len() == 10 && "CONTROLLER"@[0] == 'C');
    reveal_strlit("true");
    assert("true"@.len() == 4 && "true"@[0] == 't');
}

} // verus!
