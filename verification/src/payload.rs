//! The three served JSON payloads, built character-exactly from the series.
use vstd::prelude::*;

use vstd::string::StringExecFns;

use crate::series::{DailyExtrinsicsPoint, DailyPoint};
use crate::text::{dec_str, json_escaped, push_decimal, push_json_escaped};
use crate::DEFAULT_DAYS;

verus! {

/// The JSON object for one wallet point.
pub open spec fn daily_point_json(p: DailyPoint) -> Seq<char> {
    "{\"ts\":\""@ + json_escaped(p.ts@) + "\",\"active\":"@ + dec_str(p.active as int)
        + ",\"new\":"@ + dec_str(p.new_wallets as int) + "}"@
}

/// The JSON object for one extrinsics point.
pub open spec fn ext_point_json(p: DailyExtrinsicsPoint) -> Seq<char> {
    "{\"ts\":\""@ + json_escaped(p.ts@) + "\",\"extrinsics\":"@ + dec_str(p.extrinsics as int)
        + "}"@
}

/// The comma-separated point objects of a wallet series.
pub open spec fn daily_series_json(s: Seq<DailyPoint>) -> Seq<char>
    decreases s.len(),
{
    if s.len() == 0 {
        Seq::empty()
    } else if s.len() == 1 {
        daily_point_json(s[0])
    } else {
        daily_series_json(s.drop_last()) + ","@ + daily_point_json(s.last())
    }
}

/// The comma-separated point objects of an extrinsics series.
pub open spec fn ext_series_json(s: Seq<DailyExtrinsicsPoint>) -> Seq<char>
    decreases s.len(),
{
    if s.len() == 0 {
        Seq::empty()
    } else if s.len() == 1 {
        ext_point_json(s[0])
    } else {
        ext_series_json(s.drop_last()) + ","@ + ext_point_json(s.last())
    }
}

/// The active-wallets payload: `{"days":30,"series":[...]}`.
pub open spec fn active_payload_json(s: Seq<DailyPoint>) -> Seq<char> {
    "{\"days\":"@ + dec_str(DEFAULT_DAYS as int) + ",\"series\":["@ + daily_series_json(s) + "]}"@
}

/// The extrinsics payload: `{"days":30,"series":[...]}`.
pub open spec fn ext_payload_json(s: Seq<DailyExtrinsicsPoint>) -> Seq<char> {
    "{\"days\":"@ + dec_str(DEFAULT_DAYS as int) + ",\"series\":["@ + ext_series_json(s) + "]}"@
}

/// The inflow payload before any ingestion.
pub open spec fn inflow_default_json() -> Seq<char> {
    "{\"asOf\":null,\"entries\":[],\"minRaw\":\"0\"}"@
}

/// Appends one wallet point object.
fn push_daily_point(out: &mut String, p: &DailyPoint)
    ensures
        final(out)@ == old(out)@ + daily_point_json(*p),
{
    out.append("{\"ts\":\"");
    push_json_escaped(out, p.ts.as_str());
    out.append("\",\"active\":");
    push_decimal(out, p.active);
    out.append(",\"new\":");
    push_decimal(out, p.new_wallets);
    out.append("}");
    proof {
        assert(out@ =~= old(out)@ + daily_point_json(*p));
    }
}

/// Appends one extrinsics point object.
fn push_ext_point(out: &mut String, p: &DailyExtrinsicsPoint)
    ensures
        final(out)@ == old(out)@ + ext_point_json(*p),
{
    out.append("{\"ts\":\"");
    push_json_escaped(out, p.ts.as_str());
    out.append("\",\"extrinsics\":");
    push_decimal(out, p.extrinsics);
    out.append("}");
    proof {
        assert(out@ =~= old(out)@ + ext_point_json(*p));
    }
}

/// Serializes a wallet series into the cached payload string.
pub fn build_payload(series: &Vec<DailyPoint>) -> (r: String)
    ensures
        r@ == active_payload_json(series@),
{
    let mut out = String::new();
    out.append("{\"days\":");
    push_decimal(&mut out, DEFAULT_DAYS as u64);
    out.append(",\"series\":[");
    let ghost head = out@;
    let mut i: usize = 0;
    proof {
        assert(series@.take(0) =~= Seq::<DailyPoint>::empty());
    }
    while i < series.len()
        invariant
            0 <= i <= series@.len(),
            out@ == head + daily_series_json(series@.take(i as int)),
        decreases series@.len() - i,
    {
        if i > 0 {
            out.append(",");
        }
        push_daily_point(&mut out, &series[i]);
        proof {
            assert(series@.take(i + 1).drop_last() =~= series@.take(i as int));
            assert(series@.take(i + 1).last() == series@[i as int]);
            assert(out@ =~= head + daily_series_json(series@.take(i + 1)));
        }
        i = i + 1;
    }
    out.append("]}");
    proof {
        assert(series@.take(series@.len() as int) =~= series@);
        assert(out@ =~= active_payload_json(series@));
    }
    out
}

/// Serializes an extrinsics series into the cached payload string.
pub fn build_extrinsics_payload(series: &Vec<DailyExtrinsicsPoint>) -> (r: String)
    ensures
        r@ == ext_payload_json(series@),
{
    let mut out = String::new();
    out.append("{\"days\":");
    push_decimal(&mut out, DEFAULT_DAYS as u64);
    out.append(",\"series\":[");
    let ghost head = out@;
    let mut i: usize = 0;
    proof {
        assert(series@.take(0) =~= Seq::<DailyExtrinsicsPoint>::empty());
    }
    while i < series.len()
        invariant
            0 <= i <= series@.len(),
            out@ == head + ext_series_json(series@.take(i as int)),
        decreases series@.len() - i,
    {
        if i > 0 {
            out.append(",");
        }
        push_ext_point(&mut out, &series[i]);
        proof {
            assert(series@.take(i + 1).drop_last() =~= series@.take(i as int));
            assert(series@.take(i + 1).last() == series@[i as int]);
            assert(out@ =~= head + ext_series_json(series@.take(i + 1)));
        }
        i = i + 1;
    }
    out.append("]}");
    proof {
        assert(series@.take(series@.len() as int) =~= series@);
        assert(out@ =~= ext_payload_json(series@));
    }
    out
}

/// The payload served for either series before any data arrives.
pub fn default_payload() -> (r: String)
    ensures
        r@ == active_payload_json(Seq::<DailyPoint>::empty()),
{
    let empty: Vec<DailyPoint> = Vec::new();
    build_payload(&empty)
}

/// The extrinsics payload before any data arrives.
pub fn default_extrinsics_payload() -> (r: String)
    ensures
        r@ == ext_payload_json(Seq::<DailyExtrinsicsPoint>::empty()),
{
    let empty: Vec<DailyExtrinsicsPoint> = Vec::new();
    build_extrinsics_payload(&empty)
}

/// The inflow payload before any ingestion.
pub fn default_inflow_payload() -> (r: String)
    ensures
        r@ == inflow_default_json(),
{
    String::from_str("{\"asOf\":null,\"entries\":[],\"minRaw\":\"0\"}")
}

} // verus!
