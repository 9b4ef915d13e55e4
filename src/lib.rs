pub mod app;
pub mod expressions;
pub mod grammar;
pub mod grouping;
pub mod history;
pub mod laws;
pub mod parser;
pub mod term;
pub mod unty_abs;
pub mod unty_var;
pub mod untyped_lambda_calculus;
