//! Addresses of the browser inspector.
use vstd::prelude::*;
use vstd::string::*;
use crate::config::path_join_exec;
use crate::text::{append_str, str_chars, str_is_blank, string_from_chars, trim};
use crate::tool_result_processor::path_join;

verus! {

pub const DEFAULT_INSPECT_ADDR: &'static str = "127.0.0.1:8787";

/// The address to listen on, as text: the configured value when it is not
/// blank, else `127.0.0.1:8787`.
pub fn inspect_addr_text(value: Option<&str>) -> (r: &str)
    ensures
        r@ == match value {
            Some(v) => if trim(v@).len() > 0 {
                v@
            } else {
                DEFAULT_INSPECT_ADDR@
            },
            None => DEFAULT_INSPECT_ADDR@,
        },
{
    match value {
        Some(v) => if !str_is_blank(v) {
            v
        } else {
            DEFAULT_INSPECT_ADDR
        },
        None => DEFAULT_INSPECT_ADDR,
    }
}

/// `<manifest dir>/frontend/dist`.
pub fn default_frontend_dist(manifest_dir: &str) -> (r: String)
    ensures
        r@ == path_join(manifest_dir@, "frontend/dist"@),
{
    string_from_chars(path_join_exec(str_chars(manifest_dir).as_slice(), "frontend/dist").as_slice())
}

/// `http://<addr>/tasks/<task id>`.
pub fn browser_task_url(addr: &str, task_id: &str) -> (r: String)
    ensures
        r@ == "http://"@ + addr@ + "/tasks/"@ + task_id@,
{
    let mut v = str_chars("http://");
    append_str(&mut v, addr);
    append_str(&mut v, "/tasks/");
    append_str(&mut v, task_id);
    string_from_chars(v.as_slice())
}

/// `http://<addr>/replay/<file name>`.
pub fn replay_trace_url(addr: &str, file_name: &str) -> (r: String)
    ensures
        r@ == "http://"@ + addr@ + "/replay/"@ + file_name@,
{
    let mut v = str_chars("http://");
    append_str(&mut v, addr);
    append_str(&mut v, "/replay/");
    append_str(&mut v, file_name);
    string_from_chars(v.as_slice())
}

} // verus!
