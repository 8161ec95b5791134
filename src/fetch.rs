//! Turning the rows a fetch read into the items handed out, the errors met
//! on the way, and the status of the whole fetch.
use vstd::prelude::*;
use crate::batch::texts;

verus! {

/// One item handed out by a fetch.
pub struct FullCombo {
    pub email: String,
    pub password: String,
    pub params: String,
    pub id: String,
}

/// An item as the contracts see it: email, password, params, id.
pub type ComboRecord = (Seq<char>, Seq<char>, Seq<char>, Seq<char>);

impl View for FullCombo {
    type V = ComboRecord;

    open spec fn view(&self) -> ComboRecord {
        (self.email@, self.password@, self.params@, self.id@)
    }
}

/// One row as read from a shard table: each column either decoded to text or
/// the error that decoding it gave.
pub struct RawRow {
    pub email: Result<String, String>,
    pub password: Result<String, String>,
    pub params: Result<String, String>,
    pub id: Result<String, String>,
}

/// A row's item, or the error of its first column (email, password, params,
/// id, in that order) that did not decode.
pub open spec fn decoded(row: RawRow) -> Result<ComboRecord, Seq<char>> {
    match row.email {
        Err(e) => Err(e@),
        Ok(email) => match row.password {
            Err(e) => Err(e@),
            Ok(password) => match row.params {
                Err(e) => Err(e@),
                Ok(params) => match row.id {
                    Err(e) => Err(e@),
                    Ok(id) => Ok((email@, password@, params@, id@)),
                },
            },
        },
    }
}

/// The items of the rows that decoded, in order.
pub open spec fn fetched_items(rows: Seq<RawRow>) -> Seq<ComboRecord>
    decreases rows.len(),
{
    if rows.len() == 0 {
        Seq::empty()
    } else {
        let before = fetched_items(rows.drop_last());
        match decoded(rows.last()) {
            Ok(item) => before.push(item),
            Err(_) => before,
        }
    }
}

/// The errors of the rows that did not decode, in order.
pub open spec fn fetch_errors(rows: Seq<RawRow>) -> Seq<Seq<char>>
    decreases rows.len(),
{
    if rows.len() == 0 {
        Seq::empty()
    } else {
        let before = fetch_errors(rows.drop_last());
        match decoded(rows.last()) {
            Ok(_) => before,
            Err(e) => before.push(e),
        }
    }
}

/// The first `limit` rows, or all of them where there are fewer.
pub open spec fn first_rows(rows: Seq<RawRow>, limit: nat) -> Seq<RawRow> {
    if rows.len() <= limit {
        rows
    } else {
        rows.subrange(0, limit as int)
    }
}

fn take_text(r: &Result<String, String>) -> (out: Result<String, String>)
    ensures
        r matches Ok(s) ==> out matches Ok(t) && t@ == s@,
        r matches Err(s) ==> out matches Err(t) && t@ == s@,
{
    match r {
        Ok(s) => Ok(s.clone()),
        Err(e) => Err(e.clone()),
    }
}

fn decode_row(row: &RawRow) -> (r: Result<FullCombo, String>)
    ensures
        decoded(*row) matches Ok(item) ==> r matches Ok(c) && c@ == item,
        decoded(*row) matches Err(e) ==> r matches Err(s) && s@ == e,
{
    let email = match take_text(&row.email) {
        Ok(v) => v,
        Err(e) => return Err(e),
    };
    let password = match take_text(&row.password) {
        Ok(v) => v,
        Err(e) => return Err(e),
    };
    let params = match take_text(&row.params) {
        Ok(v) => v,
        Err(e) => return Err(e),
    };
    let id = match take_text(&row.id) {
        Ok(v) => v,
        Err(e) => return Err(e),
    };
    Ok(FullCombo { email, password, params, id })
}

/// Reads at most `limit` rows: the items of those that decode, and one error
/// for each that does not, both in row order. A row that does not decode is
/// skipped, and is not deleted.
pub fn read_rows(rows: &Vec<RawRow>, limit: usize) -> (r: (Vec<FullCombo>, Vec<String>))
    ensures
        r.0@.map_values(|c: FullCombo| c@) == fetched_items(first_rows(rows@, limit as nat)),
        texts(r.1@) == fetch_errors(first_rows(rows@, limit as nat)),
{
    let ghost seen = first_rows(rows@, limit as nat);
    let n = if rows.len() <= limit {
        rows.len()
    } else {
        limit
    };
    assert(seen =~= rows@.subrange(0, n as int));
    let mut data: Vec<FullCombo> = Vec::new();
    let mut errors: Vec<String> = Vec::new();
    let mut i: usize = 0;
    while i < n
        invariant
            n <= rows@.len(),
            seen == rows@.subrange(0, n as int),
            i <= n,
            data@.map_values(|c: FullCombo| c@) == fetched_items(rows@.subrange(0, i as int)),
            texts(errors@) == fetch_errors(rows@.subrange(0, i as int)),
        decreases n - i,
    {
        let ghost d0 = data@;
        let ghost e0 = errors@;
        assert(rows@.subrange(0, i + 1).drop_last() =~= rows@.subrange(0, i as int));
        match decode_row(&rows[i]) {
            Ok(c) => {
                data.push(c);
                assert(data@.map_values(|c: FullCombo| c@) =~= d0.map_values(|c: FullCombo| c@).push(
                    c@,
                ));
            },
            Err(e) => {
                errors.push(e);
                assert(texts(errors@) =~= texts(e0).push(e@));
            },
        }
        i = i + 1;
    }
    (data, errors)
}

/// How a fetch went.
pub enum FetchStatus {
    /// Items were handed out, perhaps with errors beside them.
    Success,
    /// Nothing was handed out, and some rows failed.
    Failure,
    /// Nothing was handed out and nothing failed: the table was empty.
    NothingToReport,
}

/// What a fetch reports: the items it handed out and the errors it met, each
/// present only where there are some.
pub struct FullComboPayload {
    pub data: Option<Vec<FullCombo>>,
    pub errors: Option<Vec<String>>,
}

/// The status and report of a fetch that handed out `data` and met `errors`:
/// success with data where there is data (with the errors beside it where
/// there are some), failure with the errors where there is only errors, and
/// the distinct nothing-to-report status where there is neither.
pub fn fetch_outcome(data: Vec<FullCombo>, errors: Vec<String>) -> (r: (
    FetchStatus,
    FullComboPayload,
))
    ensures
        data@.len() > 0 && errors@.len() == 0 ==> r.0 is Success && r.1.data == Some(data)
            && r.1.errors is None,
        data@.len() > 0 && errors@.len() > 0 ==> r.0 is Success && r.1.data == Some(data)
            && r.1.errors == Some(errors),
        data@.len() == 0 && errors@.len() > 0 ==> r.0 is Failure && r.1.data is None
            && r.1.errors == Some(errors),
        data@.len() == 0 && errors@.len() == 0 ==> r.0 is NothingToReport && r.1.data is None
            && r.1.errors is None,
{
    let has_data = data.len() > 0;
    let has_errors = errors.len() > 0;
    if has_data && has_errors {
        (FetchStatus::Success, FullComboPayload { data: Some(data), errors: Some(errors) })
    } else if has_data {
        (FetchStatus::Success, FullComboPayload { data: Some(data), errors: None })
    } else if has_errors {
        (FetchStatus::Failure, FullComboPayload { data: None, errors: Some(errors) })
    } else {
        (FetchStatus::NothingToReport, FullComboPayload { data: None, errors: None })
    }
}

} // verus!
