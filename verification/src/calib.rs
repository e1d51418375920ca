//! The seat-trim table over `taught_waypoints.yaml`: which file slot
//! each cell edits, and what each row is called.

use vstd::prelude::*;

use crate::text::{cat, dec, decimal_unsigned};
use crate::yamledit::{Slot, SlotKey};

verus! {

/// X mm, Y mm, Z mm, Tilt X deg, Tilt Z deg.
pub const COLS: usize = 5;

/// The stage, the rack base, and holders 1-10.
pub const ROWS: usize = 12;

/// The file slot behind table cell (`row`, `col`).
///
/// Row 0 is the stage (sample holder), row 1 the rack's own base and
/// lean, and row `r` from 2 on is holder `r - 1` at list index `r - 2`.
/// The stage has no tilt cells.
pub open spec fn slot_at(row: int, col: int) -> Option<SlotKey> {
    if col < 0 || col >= 5 {
        None
    } else if row == 0 {
        if col == 0 {
            Some(SlotKey::Scalar("sample_holder_on_position_x_offset"@))
        } else if col == 1 {
            Some(SlotKey::Scalar("sample_holder_on_position_y_offset"@))
        } else if col == 2 {
            Some(SlotKey::Scalar("sample_holder_on_position_z_offset"@))
        } else {
            None
        }
    } else if row == 1 {
        if col == 0 {
            Some(SlotKey::Scalar("holder_rack_x_offset"@))
        } else if col == 1 {
            Some(SlotKey::Scalar("holder_rack_y_offset"@))
        } else if col == 2 {
            Some(SlotKey::Scalar("holder_rack_z_offset"@))
        } else if col == 3 {
            Some(SlotKey::Scalar("holder_on_position_tilt_x_deg"@))
        } else {
            Some(SlotKey::Scalar("holder_on_position_tilt_z_deg"@))
        }
    } else if row >= 2 {
        let index = (row - 2) as nat;
        if col == 0 {
            Some(SlotKey::List("holder_multi_x_offsets"@, index))
        } else if col == 1 {
            Some(SlotKey::List("holder_multi_y_offsets"@, index))
        } else if col == 2 {
            Some(SlotKey::List("holder_multi_z_offsets"@, index))
        } else if col == 3 {
            Some(SlotKey::List("holder_multi_tilt_x_deg"@, index))
        } else {
            Some(SlotKey::List("holder_multi_tilt_z_deg"@, index))
        }
    } else {
        None
    }
}

/// The slot a cell edits, or `None` for a cell with no parameter behind
/// it (the stage's tilts).
pub fn slot_for(row: usize, col: usize) -> (slot: Option<Slot>)
    ensures
        match slot {
            Some(s) => slot_at(row as int, col as int) == Some(s@),
            None => slot_at(row as int, col as int) is None,
        },
{
    match (row, col) {
        (0, 0) => Some(Slot::Scalar("sample_holder_on_position_x_offset")),
        (0, 1) => Some(Slot::Scalar("sample_holder_on_position_y_offset")),
        (0, 2) => Some(Slot::Scalar("sample_holder_on_position_z_offset")),
        (0, _) => None,
        (1, 0) => Some(Slot::Scalar("holder_rack_x_offset")),
        (1, 1) => Some(Slot::Scalar("holder_rack_y_offset")),
        (1, 2) => Some(Slot::Scalar("holder_rack_z_offset")),
        (1, 3) => Some(Slot::Scalar("holder_on_position_tilt_x_deg")),
        (1, 4) => Some(Slot::Scalar("holder_on_position_tilt_z_deg")),
        (r, 0) => Some(Slot::List("holder_multi_x_offsets", r - 2)),
        (r, 1) => Some(Slot::List("holder_multi_y_offsets", r - 2)),
        (r, 2) => Some(Slot::List("holder_multi_z_offsets", r - 2)),
        (r, 3) => Some(Slot::List("holder_multi_tilt_x_deg", r - 2)),
        (r, 4) => Some(Slot::List("holder_multi_tilt_z_deg", r - 2)),
        _ => None,
    }
}

/// What row `row` of the table is called.
pub open spec fn row_text(row: int) -> Seq<char> {
    if row == 0 {
        "Stage"@
    } else if row == 1 {
        "Rack"@
    } else {
        "Holder "@ + dec(row - 1)
    }
}

/// The label of table row `row`.
pub fn row_name(row: usize) -> (name: String)
    ensures
        name@ == row_text(row as int),
{
    match row {
        0 => String::from_str("Stage"),
        1 => String::from_str("Rack"),
        n => cat("Holder ", decimal_unsigned((n - 1) as u64).as_str()),
    }
}

/// The cells of the table that have a file slot behind them.
pub open spec fn in_table(row: int, col: int) -> bool {
    0 <= row < ROWS && 0 <= col < COLS && !(row == 0 && col >= 3)
}

/// The key text of a slot.
pub open spec fn slot_key_text(k: SlotKey) -> Seq<char> {
    match k {
        SlotKey::Scalar(key) => key,
        SlotKey::List(key, _) => key,
    }
}

/// The axis letter inside a table key, found at the place each key
/// length keeps it.
spec fn axis_letter(key: Seq<char>) -> char {
    if key.len() == 34 {
        key[26]
    } else if key.len() == 20 {
        key[12]
    } else if key.len() == 29 {
        key[24]
    } else if key.len() == 22 {
        key[13]
    } else {
        key[18]
    }
}

/// The letter a column's key carries.
spec fn column_letter(col: int) -> char {
    if col == 0 || col == 3 {
        'x'
    } else if col == 1 {
        'y'
    } else {
        'z'
    }
}

/// The length of the key a cell edits.
spec fn key_length(row: int, col: int) -> nat {
    if row == 0 {
        34
    } else if row == 1 {
        if col < 3 {
            20
        } else {
            29
        }
    } else if col < 3 {
        22
    } else {
        23
    }
}

proof fn lemma_key_signature(row: int, col: int)
    requires
        in_table(row, col),
    ensures
        slot_at(row, col) is Some,
        slot_key_text(slot_at(row, col)->0).len() == key_length(row, col),
        axis_letter(slot_key_text(slot_at(row, col)->0)) == column_letter(col),
        slot_at(row, col)->0 is Scalar <==> row < 2,
        row >= 2 ==> (slot_at(row, col)->0 matches SlotKey::List(_, index) && index == row - 2),
{
    reveal_strlit("sample_holder_on_position_x_offset");
    reveal_strlit("sample_holder_on_position_y_offset");
    reveal_strlit("sample_holder_on_position_z_offset");
    reveal_strlit("holder_rack_x_offset");
    reveal_strlit("holder_rack_y_offset");
    reveal_strlit("holder_rack_z_offset");
    reveal_strlit("holder_on_position_tilt_x_deg");
    reveal_strlit("holder_on_position_tilt_z_deg");
    reveal_strlit("holder_multi_x_offsets");
    reveal_strlit("holder_multi_y_offsets");
    reveal_strlit("holder_multi_z_offsets");
    reveal_strlit("holder_multi_tilt_x_deg");
    reveal_strlit("holder_multi_tilt_z_deg");
}

/// Every cell of the table edits a slot, and no two cells edit the same
/// one: a trim typed into one seat's row can move that seat and nothing
/// else. (Holder 1 once shared its cells with the rack base, so trimming
/// it moved every other seat by the same amount.)
pub proof fn law_each_cell_edits_its_own_slot(r1: int, c1: int, r2: int, c2: int)
    requires
        in_table(r1, c1),
        in_table(r2, c2),
    ensures
        slot_at(r1, c1) is Some,
        slot_at(r1, c1) == slot_at(r2, c2) ==> r1 == r2 && c1 == c2,
{
    lemma_key_signature(r1, c1);
    lemma_key_signature(r2, c2);
}

/// A holder row names the holder whose list entry it edits: row `r`
/// from 2 on is "Holder r-1" and edits entry `r-2`, which is holder
/// `r-1` counting from 1.
pub proof fn law_a_holder_row_edits_its_own_holder(row: int, col: int)
    requires
        2 <= row < ROWS,
        0 <= col < COLS,
    ensures
        row_text(row) == "Holder "@ + dec(row - 1),
        (slot_at(row, col) matches Some(SlotKey::List(_, index)) && index + 1 == row - 1),
{
}

} // verus!
