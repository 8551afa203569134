//! A composable builder for parameterised SQL `select` statements.
//!
//! Fragments (table source, joins, predicates, ordering, grouping and
//! pagination) are written with the generic placeholder `?`. Rendering walks
//! the statement once, splicing nested statements into their parents'
//! placeholders, and yields one template together with the values to bind,
//! in the order in which their placeholders appear. The binder then hands
//! that template to sqlx, which numbers the parameters `$1`, `$2`, ...
pub mod text;
pub mod util;
pub mod error;
pub mod bool_kind;
pub mod order;
pub mod sql_value;
pub mod predicate;
pub mod join;
pub mod select;
pub mod group_by;
pub mod optional_num;
pub mod statement;
pub mod binder;

pub use crate::binder::{PgQueryBuilder, assert_query_part_and_placeholder_lengths_correct};
pub use crate::bool_kind::BoolKind;
pub use crate::error::{QResult, QueryError};
pub use crate::group_by::IntoGroupBy;
pub use crate::join::{Join, JoinKind, TryIntoJoin};
pub use crate::optional_num::IntoOptional;
pub use crate::order::OrderDir;
pub use crate::predicate::{IntoWhere, TryIntoWhere, Where, WhereBuilder};
pub use crate::select::IntoSelect;
pub use crate::sql_value::{BindValue, SQLValue};
pub use crate::statement::{IntoTable, Select, TableType};
pub use crate::util::placeholder_count;
