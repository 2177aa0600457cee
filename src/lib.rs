//! A columnar table of typed scalar cells. Each column keeps its cells in row order, an
//! index from value to the cells holding it, and, where asked, a trailing rolling mean per
//! cell and a companion column of period-over-period differences. Rows refer to their cells
//! without owning them; every structural change keeps rows, columns, indexes and rolling
//! means consistent.
pub mod cell;
pub mod column;
pub mod datatypes;
pub mod frame;
pub mod kinds;
pub mod row;
