//! The strategy context: the names under which its fields can be read and
//! written, and the symbol a bar stands for.

use vstd::prelude::*;

use crate::text::text_eq;

verus! {

/// A field of the strategy context.
#[derive(Clone, Copy, Debug, PartialEq, Eq, Structural)]
pub enum ContextField {
    Position,
    AvgCost,
    Cash,
    Equity,
    BarIndex,
    Positions,
    LastPrices,
}

/// The key under which a context field is read and written.
pub open spec fn field_key(field: ContextField) -> Seq<char> {
    match field {
        ContextField::Position => "position"@,
        ContextField::AvgCost => "avg_cost"@,
        ContextField::Cash => "cash"@,
        ContextField::Equity => "equity"@,
        ContextField::BarIndex => "bar_index"@,
        ContextField::Positions => "positions"@,
        ContextField::LastPrices => "last_prices"@,
    }
}

/// The context field a key names, if any.
pub open spec fn key_field(key: Seq<char>) -> Option<ContextField> {
    if key == "position"@ {
        Some(ContextField::Position)
    } else if key == "avg_cost"@ {
        Some(ContextField::AvgCost)
    } else if key == "cash"@ {
        Some(ContextField::Cash)
    } else if key == "equity"@ {
        Some(ContextField::Equity)
    } else if key == "bar_index"@ {
        Some(ContextField::BarIndex)
    } else if key == "positions"@ {
        Some(ContextField::Positions)
    } else if key == "last_prices"@ {
        Some(ContextField::LastPrices)
    } else {
        None
    }
}

/// The key of a context field.
pub fn context_key(field: ContextField) -> (res: &'static str)
    ensures
        res@ == field_key(field),
{
    match field {
        ContextField::Position => "position",
        ContextField::AvgCost => "avg_cost",
        ContextField::Cash => "cash",
        ContextField::Equity => "equity",
        ContextField::BarIndex => "bar_index",
        ContextField::Positions => "positions",
        ContextField::LastPrices => "last_prices",
    }
}

/// The context field a key names (exactly, case included); `None` for any
/// other key, which both reading and writing refuse.
pub fn context_field(key: &str) -> (res: Option<ContextField>)
    ensures
        res == key_field(key@),
{
    if text_eq(key, "position") {
        Some(ContextField::Position)
    } else if text_eq(key, "avg_cost") {
        Some(ContextField::AvgCost)
    } else if text_eq(key, "cash") {
        Some(ContextField::Cash)
    } else if text_eq(key, "equity") {
        Some(ContextField::Equity)
    } else if text_eq(key, "bar_index") {
        Some(ContextField::BarIndex)
    } else if text_eq(key, "positions") {
        Some(ContextField::Positions)
    } else if text_eq(key, "last_prices") {
        Some(ContextField::LastPrices)
    } else {
        None
    }
}

/// Law: every context field is found again under its own key, so reading
/// and writing by key reach each of the seven fields.
pub proof fn lemma_context_key_round_trip(field: ContextField)
    ensures
        key_field(field_key(field)) == Some(field),
{
    reveal_strlit("position");
    reveal_strlit("avg_cost");
    reveal_strlit("cash");
    reveal_strlit("equity");
    reveal_strlit("bar_index");
    reveal_strlit("positions");
    reveal_strlit("last_prices");
    assert("position"@ != "avg_cost"@) by { assert("position"@[0] != "avg_cost"@[0]); }
    assert("position"@ != "cash"@) by { assert("position"@.len() != "cash"@.len()); }
    assert("position"@ != "equity"@) by { assert("position"@.len() != "equity"@.len()); }
    assert("position"@ != "bar_index"@) by { assert("position"@.len() != "bar_index"@.len()); }
    assert("position"@ != "positions"@) by { assert("position"@.len() != "positions"@.len()); }
    assert("position"@ != "last_prices"@) by {
        assert("position"@.len() != "last_prices"@.len());
    }
    assert("avg_cost"@ != "cash"@) by { assert("avg_cost"@.len() != "cash"@.len()); }
    assert("avg_cost"@ != "equity"@) by { assert("avg_cost"@.len() != "equity"@.len()); }
    assert("avg_cost"@ != "bar_index"@) by { assert("avg_cost"@.len() != "bar_index"@.len()); }
    assert("avg_cost"@ != "positions"@) by { assert("avg_cost"@.len() != "positions"@.len()); }
    assert("avg_cost"@ != "last_prices"@) by {
        assert("avg_cost"@.len() != "last_prices"@.len());
    }
    assert("cash"@ != "equity"@) by { assert("cash"@.len() != "equity"@.len()); }
    assert("cash"@ != "bar_index"@) by { assert("cash"@.len() != "bar_index"@.len()); }
    assert("cash"@ != "positions"@) by { assert("cash"@.len() != "positions"@.len()); }
    assert("cash"@ != "last_prices"@) by { assert("cash"@.len() != "last_prices"@.len()); }
    assert("equity"@ != "bar_index"@) by { assert("equity"@.len() != "bar_index"@.len()); }
    assert("equity"@ != "positions"@) by { assert("equity"@.len() != "positions"@.len()); }
    assert("equity"@ != "last_prices"@) by { assert("equity"@.len() != "last_prices"@.len()); }
    assert("bar_index"@ != "positions"@) by { assert("bar_index"@[0] != "positions"@[0]); }
    assert("bar_index"@ != "last_prices"@) by {
        assert("bar_index"@.len() != "last_prices"@.len());
    }
    assert("positions"@ != "last_prices"@) by {
        assert("positions"@.len() != "last_prices"@.len());
    }
}

/// Law: each key names exactly one context field, and each field exactly
/// one key: `position`, `avg_cost`, `cash`, `equity`, `bar_index`,
/// `positions`, `last_prices` (case included); any other key names none.
pub proof fn lemma_context_keys(key: Seq<char>)
    ensures
        key_field(key) == Some(ContextField::Position) <==> key == "position"@,
        key_field(key) == Some(ContextField::AvgCost) <==> key == "avg_cost"@,
        key_field(key) == Some(ContextField::Cash) <==> key == "cash"@,
        key_field(key) == Some(ContextField::Equity) <==> key == "equity"@,
        key_field(key) == Some(ContextField::BarIndex) <==> key == "bar_index"@,
        key_field(key) == Some(ContextField::Positions) <==> key == "positions"@,
        key_field(key) == Some(ContextField::LastPrices) <==> key == "last_prices"@,
        key_field(key) is None <==> (key != "position"@ && key != "avg_cost"@ && key != "cash"@
            && key != "equity"@ && key != "bar_index"@ && key != "positions"@ && key
            != "last_prices"@),
{
    lemma_context_key_round_trip(ContextField::Position);
    lemma_context_key_round_trip(ContextField::AvgCost);
    lemma_context_key_round_trip(ContextField::Cash);
    lemma_context_key_round_trip(ContextField::Equity);
    lemma_context_key_round_trip(ContextField::BarIndex);
    lemma_context_key_round_trip(ContextField::Positions);
    lemma_context_key_round_trip(ContextField::LastPrices);
}

/// The symbol a bar stands for: its own, or `DEFAULT` where it has none.
pub open spec fn symbol_or_default_text(symbol: Option<String>) -> Seq<char> {
    match symbol {
        Some(s) => s@,
        None => "DEFAULT"@,
    }
}

/// The symbol a bar stands for: its own, or `DEFAULT` where it has none.
pub fn symbol_or_default(symbol: &Option<String>) -> (res: String)
    ensures
        res@ == symbol_or_default_text(*symbol),
        symbol matches Some(s) ==> res@ == s@,
        symbol is None ==> res@ == "DEFAULT"@,
{
    match symbol {
        Some(s) => s.clone(),
        None => String::from_str("DEFAULT"),
    }
}

/// Whether a strategy method takes the context as well as the bar: it does
/// where its signature lists at least two parameters.
pub fn accepts_context(parameter_count: usize) -> (res: bool)
    ensures
        res == (parameter_count >= 2),
{
    parameter_count >= 2
}

} // verus!
