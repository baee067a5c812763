pub mod grep;
