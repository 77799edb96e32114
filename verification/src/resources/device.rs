//! The key-issuance request body: identifies the requesting application and
//! asks the device to generate a client key.

use crate::codec::{chars_to_string, enc_str, json_safe, push_chars, sp_lit, sp_string};
use vstd::prelude::*;

verus! {

/// The identity a provisioning request carries: the application and its
/// instance, joined as `app_name#instance_name` on the wire.
#[derive(Debug)]
pub struct DeviceType<'a> {
    pub app_name: &'a str,
    pub instance_name: &'a str,
}

/// The compact wire text of a provisioning request body.
pub open spec fn enc_device_type(app: Seq<char>, inst: Seq<char>) -> Seq<char> {
    ("{\"devicetype\":\"")@ + app + ("#")@ + inst + ("\",\"generateclientkey\":true}")@
}

impl<'a> DeviceType<'a> {
    /// Encodes the request body. The names must hold no `"` or `\`, which
    /// the wire text could not carry unescaped.
    pub fn encode(&self) -> (r: String)
        requires
            json_safe(self.app_name@),
            json_safe(self.instance_name@),
        ensures
            r@ == enc_device_type(self.app_name@, self.instance_name@),
    {
        let mut out: Vec<char> = Vec::new();
        push_chars(&mut out, "{\"devicetype\":\"");
        push_chars(&mut out, self.app_name);
        push_chars(&mut out, "#");
        push_chars(&mut out, self.instance_name);
        push_chars(&mut out, "\",\"generateclientkey\":true}");
        proof {
            assert(Seq::<char>::empty() + ("{\"devicetype\":\"")@ + self.app_name@ + ("#")@
                + self.instance_name@ + ("\",\"generateclientkey\":true}")@ =~= enc_device_type(
                self.app_name@,
                self.instance_name@,
            ));
        }
        chars_to_string(&out)
    }
}

} // verus!
