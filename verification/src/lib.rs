//! Library side of a notice-board notifier: it reads the notice table of a
//! web page, decides which notices are new, and builds the messages and
//! requests that tell the subscribed users about them.
pub mod bot;
pub mod db;
pub mod html;
pub mod notifier;
pub mod parse_env;
pub mod site_scraper;
pub mod structs;
pub mod text;
pub mod utils;
