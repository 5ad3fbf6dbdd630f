//! The model behind the windows of a Telegram client: what each view holds, what
//! each event does to it, and what it shows.

pub mod anim;
pub mod auth;
pub mod avatar;
pub mod bots;
pub mod call;
pub mod cards;
pub mod chatlist;
pub mod clock;
pub mod contacts;
pub mod dialog_laws;
pub mod event_loop;
pub mod forward;
pub mod icons;
pub mod info_panel;
pub mod keys;
pub mod keys_view;
pub mod lists;
pub mod locationdialog;
pub mod lottie;
pub mod lottie_backend;
pub mod markup;
pub mod markup_laws;
pub mod markup_rules;
pub mod media_image;
pub mod media_laws;
pub mod menus;
pub mod messages;
pub mod newgroup;
pub mod panel_laws;
pub mod stickers;
pub mod text;
pub mod text_laws;
pub mod tg;
