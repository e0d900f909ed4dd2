pub mod orchestrator;
