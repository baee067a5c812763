pub mod documentation;
