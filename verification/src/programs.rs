pub mod quantum_program;
