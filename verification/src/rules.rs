pub mod no_var;
