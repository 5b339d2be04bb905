// A native-process debugger's core: the breakpoint and stop-handling logic of
// a session over a traced child process, and the word patching it relies on.
// Beside it: vector helpers, the factoring farm's number logic, the hangman
// game rules and the load balancer's upstream bookkeeping.
pub mod debugger;
pub mod factor;
pub mod hangman;
pub mod inferior;
pub mod laws;
pub mod parse;
pub mod upstream;
pub mod vectors;
pub mod word;
