//! Logic of the theme engine that previews a ReTheme theme inside an isolated
//! ChatGPT window.

pub mod asset;
pub mod asset_http;
pub mod bytes;
pub mod channel;
pub mod clock;
pub mod command_line;
pub mod decimal;
pub mod devtools;
pub mod devtools_http;
pub mod endpoint;
pub mod error;
pub mod expression;
pub mod installation;
pub mod json;
pub mod locale;
pub mod page_script;
pub mod platform;
pub mod platform_css;
pub mod process;
pub mod property_list;
pub mod session;
pub mod startup;
pub mod template;
pub mod text;
pub mod timing;
pub mod token;
pub mod xml_date;
