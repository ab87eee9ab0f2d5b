//! Step-by-step construction of query parameters.

use crate::consistency::Consistency;
use crate::query::query_flags::{flags_bits, QueryFlags};
use crate::query::query_params::{flags_byte, flags_for_values, QueryParams, QueryParamsView};
use crate::query::query_values::QueryValues;
use crate::types::CBytes;
use vstd::prelude::*;

verus! {

/// Collects the parameters of a query. Each optional field that is set brings its
/// flag with it, in whatever order the fields are set, so that the flags mirror
/// the fields after every step.
#[derive(Debug)]
pub struct QueryParamsBuilder {
    params: QueryParams,
}

impl View for QueryParamsBuilder {
    type V = QueryParamsView;

    /// The parameters that `finalize` would give.
    closed spec fn view(&self) -> QueryParamsView {
        self.params@
    }
}

impl QueryParamsBuilder {
    /// A builder with consistency `One` and no optional field. Its flags mirror
    /// its fields: none is raised.
    pub fn new() -> (r: QueryParamsBuilder)
        ensures
            r@ == QueryParamsView::initial(),
            r@.consistent(),
    {
        proof {
            QueryParamsView::lemma_initial_consistent();
        }
        QueryParamsBuilder {
            params: QueryParams {
                consistency: Consistency::One,
                flags: Vec::new(),
                with_names: None,
                values: None,
                page_size: None,
                paging_state: None,
                serial_consistency: None,
                timestamp: None,
            },
        }
    }

    /// Sets the consistency.
    pub fn consistency(self, consistency: Consistency) -> (r: QueryParamsBuilder)
        ensures
            r@ == (QueryParamsView { consistency, ..self@ }),
            self@.consistent() ==> r@.consistent(),
    {
        let mut params = self.params;
        params.consistency = consistency;
        QueryParamsBuilder { params }
    }

    /// Asks for `flags`. The flag that governs no field is held afterwards exactly
    /// where `flags` holds it. The flag of a field cannot be asked for or given up
    /// here: it is held exactly where the field is given. So the flags mirror the
    /// fields afterwards, whatever was asked for.
    pub fn flags(self, flags: Vec<QueryFlags>) -> (r: QueryParamsBuilder)
        ensures
            r@ == self@.with_flags(flags@),
            r@.consistent(),
            QueryFlags::SkipMetadata.is_set(flags_bits(r@.flags)) == QueryFlags::SkipMetadata.is_set(
                flags_bits(flags@),
            ),
    {
        proof {
            self@.lemma_with_flags_consistent(flags@);
        }
        let mut params = self.params;
        let byte: u8 = params.implied_byte() | (flags_byte(&flags) & 0x02);
        params.flags = QueryParams::parse_query_flags(byte);
        QueryParamsBuilder { params }
    }

    /// Sets the values, and `with_names` after their shape. The value flag is
    /// raised; the flag for names is raised where the values carry names and
    /// taken back where they do not.
    pub fn values(self, values: QueryValues) -> (r: QueryParamsBuilder)
        ensures
            r@ == self@.with_values(values@),
            self@.consistent() ==> r@.consistent(),
    {
        proof {
            if self@.consistent() {
                self@.lemma_setters_keep_consistent();
            }
        }
        let named = values.with_names();
        let params = self.params;
        QueryParamsBuilder {
            params: QueryParams {
                consistency: params.consistency,
                flags: flags_for_values(params.flags, named),
                with_names: Some(named),
                values: Some(values),
                page_size: params.page_size,
                paging_state: params.paging_state,
                serial_consistency: params.serial_consistency,
                timestamp: params.timestamp,
            },
        }
    }

    /// Sets `with_names`. The flags stay as they are: the flag for names goes by
    /// the shape of the values.
    pub fn with_names(self, with_names: bool) -> (r: QueryParamsBuilder)
        ensures
            r@ == self@.with_names_set(with_names),
            self@.consistent() ==> r@.consistent(),
    {
        let mut params = self.params;
        params.with_names = Some(with_names);
        QueryParamsBuilder { params }
    }

    /// Sets the page size and raises its flag.
    pub fn page_size(self, size: i32) -> (r: QueryParamsBuilder)
        ensures
            r@ == self@.with_page_size(size),
            self@.consistent() ==> r@.consistent(),
    {
        proof {
            if self@.consistent() {
                self@.lemma_setters_keep_consistent();
            }
        }
        let mut params = self.params;
        params.page_size = Some(size);
        params.flags.push(QueryFlags::PageSize);
        QueryParamsBuilder { params }
    }

    /// Sets the paging state and raises its flag.
    pub fn paging_state(self, state: CBytes) -> (r: QueryParamsBuilder)
        ensures
            r@ == self@.with_paging_state(state@),
            self@.consistent() ==> r@.consistent(),
    {
        proof {
            if self@.consistent() {
                self@.lemma_setters_keep_consistent();
            }
        }
        let mut params = self.params;
        params.paging_state = Some(state);
        params.flags.push(QueryFlags::WithPagingState);
        QueryParamsBuilder { params }
    }

    /// Sets the serial consistency and raises its flag.
    pub fn serial_consistency(self, serial_consistency: Consistency) -> (r: QueryParamsBuilder)
        ensures
            r@ == self@.with_serial_consistency(serial_consistency),
            self@.consistent() ==> r@.consistent(),
    {
        proof {
            if self@.consistent() {
                self@.lemma_setters_keep_consistent();
            }
        }
        let mut params = self.params;
        params.serial_consistency = Some(serial_consistency);
        params.flags.push(QueryFlags::WithSerialConsistency);
        QueryParamsBuilder { params }
    }

    /// Sets the timestamp and raises its flag.
    pub fn timestamp(self, timestamp: i64) -> (r: QueryParamsBuilder)
        ensures
            r@ == self@.with_timestamp(timestamp),
            self@.consistent() ==> r@.consistent(),
    {
        proof {
            if self@.consistent() {
                self@.lemma_setters_keep_consistent();
            }
        }
        let mut params = self.params;
        params.timestamp = Some(timestamp);
        params.flags.push(QueryFlags::WithDefaultTimestamp);
        QueryParamsBuilder { params }
    }

    /// The parameters that were collected. The builder is used up.
    pub fn finalize(self) -> (params: QueryParams)
        ensures
            params@ == self@,
    {
        self.params
    }
}

impl Default for QueryParamsBuilder {
    fn default() -> (r: QueryParamsBuilder)
        ensures
            r@ == QueryParamsView::initial(),
            r@.consistent(),
    {
        QueryParamsBuilder::new()
    }
}

} // verus!
