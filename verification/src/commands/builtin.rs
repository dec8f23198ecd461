pub mod userinfo;
