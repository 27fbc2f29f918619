//! Front end of a language-analysis engine for Lua.
//!
//! The crate has three layers. The event-recording expression parser
//! (`parser`, `marker`, `expr`) turns a token stream into an append-only
//! event log, using retroactive re-parenting (`precede`) for every
//! left-associative fold. Each parse function is proved equivalent to the
//! grammar's acceptance relation (`expr::accept_expr` and company):
//! success exactly on the accepted inputs, the cursor and completed node
//! kind as the relation states, and on failure exactly the stated
//! contextual errors, while the nesting depth is restored on every path —
//! from which the balance, round-trip, precedence-acceptance and
//! error-attachment laws follow (`parser::lemma_event_stream_balanced`,
//! `parser::lemma_round_trip`, `expr::lemma_binary_pair_accepted`,
//! `expr::lemma_error_attachment`).
//! The tree layer (`tree`) materializes the log into an immutable,
//! shareable backing arena, proved lossless (`build_green`), and derives a
//! positional view with absolute ranges on demand. The semantic layer
//! (`semantic`, `completion`) maps syntax positions to a static type plus
//! a canonical property-owner identity; the resolvers carry exact
//! functional contracts, and the agreement, fast-path and degradation
//! laws are proved over them.
#![verifier::loop_isolation(false)]

pub mod kind;
pub mod parser_error;
pub mod marker;
pub mod parser;
pub mod expr;
pub mod tree;
pub mod semantic;
pub mod completion;
